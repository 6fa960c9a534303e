//! What holds of the names that programs are written with.

use vstd::prelude::*;

use crate::shex::ir::{Opcode, RegisterType};

verus! {

/// Whether `c` can stand in a name: a letter, a digit or an underscore.
pub open spec fn is_word_char(c: char) -> bool {
    is_name_char(c) || ('0' <= c && c <= '9')
}

/// Whether `c` is a letter or an underscore.
pub open spec fn is_name_char(c: char) -> bool {
    ('a' <= c && c <= 'z') || ('A' <= c && c <= 'Z') || c == '_'
}

/// Whether `s` is a name.
pub open spec fn is_word(s: Seq<char>) -> bool {
    s.len() > 0 && forall|i: int| 0 <= i < s.len() ==> is_word_char(#[trigger] s[i])
}

// ---------------------------------------------------------------------------
// Mnemonics
// ---------------------------------------------------------------------------

/// Whether what stands in `s` from position `i` on neither is the beginning of a
/// modifier nor goes on with one.
pub open spec fn no_modifier_at(s: Seq<char>, i: int) -> bool {
    let n = s.len() - i;
    ||| n >= 1 && s[i] != 'r' && s[i] != 's' && s[i] != 'n' && s[i] != 'p' && s[i] != 'o'
    ||| n >= 2 && s[i] == 'r' && s[i + 1] != 'i' && s[i + 1] != 'e' && s[i + 1] != 't' && s[i + 1]
        != 'd' && s[i + 1] != 'r'
    ||| n >= 2 && s[i] == 's' && s[i + 1] != 'a' && s[i + 1] != 'f'
    ||| n >= 2 && s[i] == 'n' && s[i + 1] != 'z'
    ||| n >= 2 && s[i] == 'p' && s[i + 1] != 'm'
    ||| n >= 2 && s[i] == 'o' && s[i + 1] != 'f'
    ||| n >= 3 && s[i] == 's' && s[i + 1] == 'a' && s[i + 2] != 't'
    ||| n >= 3 && s[i] == 'r' && s[i + 1] == 't' && s[i + 2] != '('
    ||| n >= 4 && s[i] == 'r' && s[i + 1] == 'e' && s[i + 3] != '('
}

/// What holds of every mnemonic: it is a name of at least two characters, does
/// not begin with `op`, and no part of it behind an underscore looks like a
/// modifier.
#[verifier::opaque]
pub open spec fn is_mnemonic(s: Seq<char>) -> bool {
    &&& s.len() >= 2
    &&& is_word(s)
    &&& is_name_char(s[0]) && s[0] != '_'
    &&& !(s[0] == 'o' && s[1] == 'p')
    &&& forall|i: int| 0 <= i < s.len() && #[trigger] s[i] == '_' ==> no_modifier_at(s, i + 1)
}

/// The number of the opcode with the mnemonic `s`, told by a few characters.
#[verifier::opaque]
pub open spec fn mnemonic_key(s: Seq<char>) -> u32 {
    if s[0] <= 'e' {
        if s.len() <= 10 {
            if s.len() <= 4 {
                if s.len() <= 3 {
                    if s[1] <= 'l' {
                        if s[1] <= 'f' {
                            if s[0] <= 'a' {
                                0
                            } else {
                                if s[0] <= 'b' {
                                    140
                                } else {
                                    195
                                }
                            }
                        } else {
                            if s[1] <= 'g' {
                                196
                            } else {
                                if s[1] <= 'i' {
                                    14
                                } else {
                                    197
                                }
                            }
                        }
                    } else {
                        if s[1] <= 'p' {
                            if s[1] <= 'n' {
                                if s[0] <= 'a' {
                                    1
                                } else {
                                    198
                                }
                            } else {
                                if s[2] <= '2' {
                                    15
                                } else {
                                    if s[2] <= '3' {
                                        16
                                    } else {
                                        17
                                    }
                                }
                            }
                        } else {
                            if s.len() <= 2 {
                                24
                            } else {
                                if s[0] <= 'c' {
                                    9
                                } else {
                                    25
                                }
                            }
                        }
                    }
                } else {
                    if s[2] <= 'l' {
                        if s[1] <= 'd' {
                            if s[0] <= 'c' {
                                4
                            } else {
                                if s[1] <= 'a' {
                                    191
                                } else {
                                    210
                                }
                            }
                        } else {
                            if s[2] <= 'c' {
                                if s[1] <= 'm' {
                                    192
                                } else {
                                    212
                                }
                            } else {
                                if s[0] <= 'd' {
                                    193
                                } else {
                                    19
                                }
                            }
                        }
                    } else {
                        if s[3] <= 'f' {
                            if s[1] <= 'f' {
                                if s[0] <= 'c' {
                                    6
                                } else {
                                    211
                                }
                            } else {
                                if s[0] <= 'd' {
                                    201
                                } else {
                                    18
                                }
                            }
                        } else {
                            if s[1] <= 'm' {
                                if s[2] <= 'o' {
                                    199
                                } else {
                                    194
                                }
                            } else {
                                if s[3] <= 'i' {
                                    214
                                } else {
                                    215
                                }
                            }
                        }
                    }
                }
            } else {
                if s[4] <= 'n' {
                    if s.len() <= 7 {
                        if s.len() <= 5 {
                            if s[0] <= 'c' {
                                if s[0] <= 'b' {
                                    2
                                } else {
                                    5
                                }
                            } else {
                                if s[0] <= 'd' {
                                    200
                                } else {
                                    21
                                }
                            }
                        } else {
                            if s.len() <= 6 {
                                3
                            } else {
                                if s[0] <= 'b' {
                                    121
                                } else {
                                    13
                                }
                            }
                        }
                    } else {
                        if s[0] <= 'a' {
                            if s.len() <= 9 {
                                170
                            } else {
                                if s[7] <= 'a' {
                                    169
                                } else {
                                    171
                                }
                            }
                        } else {
                            if s.len() <= 8 {
                                7
                            } else {
                                if s[0] <= 'c' {
                                    8
                                } else {
                                    95
                                }
                            }
                        }
                    }
                } else {
                    if s[1] <= 'e' {
                        if s[1] <= 'c' {
                            if s.len() <= 9 {
                                if s.len() <= 5 {
                                    207
                                } else {
                                    104
                                }
                            } else {
                                if s[4] <= 'o' {
                                    101
                                } else {
                                    143
                                }
                            }
                        } else {
                            if s.len() <= 7 {
                                10
                            } else {
                                if s[8] <= 'x' {
                                    11
                                } else {
                                    12
                                }
                            }
                        }
                    } else {
                        if s[1] <= 'n' {
                            if s.len() <= 5 {
                                141
                            } else {
                                if s.len() <= 7 {
                                    22
                                } else {
                                    23
                                }
                            }
                        } else {
                            if s.len() <= 9 {
                                134
                            } else {
                                if s[2] <= 's' {
                                    53
                                } else {
                                    118
                                }
                            }
                        }
                    }
                }
            }
        } else {
            if s.len() <= 15 {
                if s[7] <= 'o' {
                    if s[1] <= 'c' {
                        if s.len() <= 12 {
                            if s.len() <= 11 {
                                157
                            } else {
                                if s[4] <= 'r' {
                                    88
                                } else {
                                    159
                                }
                            }
                        } else {
                            if s.len() <= 13 {
                                if s[4] <= 'i' {
                                    146
                                } else {
                                    156
                                }
                            } else {
                                if s.len() <= 14 {
                                    91
                                } else {
                                    106
                                }
                            }
                        }
                    } else {
                        if s[0] <= 'a' {
                            if s[8] <= 'a' {
                                173
                            } else {
                                if s[9] <= 'a' {
                                    174
                                } else {
                                    175
                                }
                            }
                        } else {
                            if s.len() <= 11 {
                                20
                            } else {
                                if s.len() <= 12 {
                                    203
                                } else {
                                    205
                                }
                            }
                        }
                    }
                } else {
                    if s.len() <= 12 {
                        if s[1] <= 'e' {
                            if s.len() <= 11 {
                                if s[1] <= 'c' {
                                    90
                                } else {
                                    208
                                }
                            } else {
                                98
                            }
                        } else {
                            if s[0] <= 'a' {
                                if s[9] <= 'a' {
                                    176
                                } else {
                                    177
                                }
                            } else {
                                117
                            }
                        }
                    } else {
                        if s[4] <= 'o' {
                            if s.len() <= 13 {
                                if s[11] <= 'g' {
                                    96
                                } else {
                                    97
                                }
                            } else {
                                if s[12] <= 'g' {
                                    102
                                } else {
                                    103
                                }
                            }
                        } else {
                            if s.len() <= 14 {
                                if s[8] <= 'x' {
                                    123
                                } else {
                                    125
                                }
                            } else {
                                149
                            }
                        }
                    }
                }
            } else {
                if s.len() <= 18 {
                    if s.len() <= 16 {
                        if s[1] <= 'c' {
                            if s[4] <= 'i' {
                                if s[14] <= 'g' {
                                    99
                                } else {
                                    100
                                }
                            } else {
                                if s[4] <= 'r' {
                                    161
                                } else {
                                    155
                                }
                            }
                        } else {
                            if s[0] <= 'a' {
                                172
                            } else {
                                if s[8] <= 'x' {
                                    122
                                } else {
                                    124
                                }
                            }
                        }
                    } else {
                        if s.len() <= 17 {
                            if s[0] <= 'd' {
                                if s[4] <= 'f' {
                                    144
                                } else {
                                    105
                                }
                            } else {
                                204
                            }
                        } else {
                            if s[4] <= 'c' {
                                if s[0] <= 'd' {
                                    89
                                } else {
                                    119
                                }
                            } else {
                                if s[4] <= 'f' {
                                    145
                                } else {
                                    158
                                }
                            }
                        }
                    }
                } else {
                    if s.len() <= 23 {
                        if s.len() <= 20 {
                            if s.len() <= 19 {
                                if s[4] <= 'h' {
                                    152
                                } else {
                                    160
                                }
                            } else {
                                93
                            }
                        } else {
                            if s.len() <= 21 {
                                if s[4] <= 'g' {
                                    206
                                } else {
                                    150
                                }
                            } else {
                                162
                            }
                        }
                    } else {
                        if s.len() <= 29 {
                            if s.len() <= 25 {
                                if s.len() <= 24 {
                                    94
                                } else {
                                    151
                                }
                            } else {
                                if s[4] <= 'g' {
                                    92
                                } else {
                                    147
                                }
                            }
                        } else {
                            if s.len() <= 30 {
                                148
                            } else {
                                if s[7] <= 'f' {
                                    153
                                } else {
                                    154
                                }
                            }
                        }
                    }
                }
            }
        }
    } else {
        if s.len() <= 4 {
            if s[1] <= 'm' {
                if s.len() <= 3 {
                    if s[0] <= 'l' {
                        if s.len() <= 2 {
                            if s[0] <= 'g' {
                                29
                            } else {
                                if s[0] <= 'i' {
                                    31
                                } else {
                                    45
                                }
                            }
                        } else {
                            if s[1] <= 'g' {
                                if s[1] <= 'e' {
                                    32
                                } else {
                                    33
                                }
                            } else {
                                34
                            }
                        }
                    } else {
                        if s[0] <= 'n' {
                            if s[1] <= 'a' {
                                if s[2] <= 'd' {
                                    50
                                } else {
                                    52
                                }
                            } else {
                                if s.len() <= 2 {
                                    57
                                } else {
                                    51
                                }
                            }
                        } else {
                            if s[0] <= 'r' {
                                if s[1] <= 'c' {
                                    129
                                } else {
                                    62
                                }
                            } else {
                                if s[1] <= 'g' {
                                    80
                                } else {
                                    79
                                }
                            }
                        }
                    }
                } else {
                    if s[0] <= 'r' {
                        if s[1] <= 'e' {
                            if s[0] <= 'i' {
                                if s[1] <= 'a' {
                                    30
                                } else {
                                    139
                                }
                            } else {
                                63
                            }
                        } else {
                            if s[2] <= 'a' {
                                if s[3] <= 'd' {
                                    35
                                } else {
                                    36
                                }
                            } else {
                                if s[2] <= 'i' {
                                    37
                                } else {
                                    38
                                }
                            }
                        }
                    } else {
                        if s[2] <= 'f' {
                            if s[1] <= 'b' {
                                138
                            } else {
                                if s[3] <= 'd' {
                                    82
                                } else {
                                    83
                                }
                            }
                        } else {
                            if s[1] <= 'd' {
                                78
                            } else {
                                if s[2] <= 'i' {
                                    84
                                } else {
                                    81
                                }
                            }
                        }
                    }
                }
            } else {
                if s[0] <= 'l' {
                    if s[1] <= 'r' {
                        if s[0] <= 'i' {
                            if s.len() <= 3 {
                                if s[0] <= 'f' {
                                    26
                                } else {
                                    39
                                }
                            } else {
                                40
                            }
                        } else {
                            if s.len() <= 3 {
                                if s[2] <= 'd' {
                                    108
                                } else {
                                    47
                                }
                            } else {
                                48
                            }
                        }
                    } else {
                        if s[0] <= 'f' {
                            if s[3] <= 'd' {
                                202
                            } else {
                                if s[3] <= 'i' {
                                    27
                                } else {
                                    28
                                }
                            }
                        } else {
                            if s[1] <= 's' {
                                if s[3] <= 'l' {
                                    41
                                } else {
                                    42
                                }
                            } else {
                                if s.len() <= 2 {
                                    49
                                } else {
                                    if s[3] <= 'd' {
                                        216
                                    } else {
                                        43
                                    }
                                }
                            }
                        }
                    }
                } else {
                    if s.len() <= 3 {
                        if s[0] <= 'n' {
                            if s[0] <= 'm' {
                                if s[1] <= 'o' {
                                    54
                                } else {
                                    56
                                }
                            } else {
                                if s[2] <= 'p' {
                                    58
                                } else {
                                    59
                                }
                            }
                        } else {
                            if s.len() <= 2 {
                                60
                            } else {
                                if s[0] <= 'r' {
                                    68
                                } else {
                                    87
                                }
                            }
                        }
                    } else {
                        if s[0] <= 's' {
                            if s[0] <= 'm' {
                                if s[1] <= 'o' {
                                    55
                                } else {
                                    213
                                }
                            } else {
                                if s[1] <= 'q' {
                                    75
                                } else {
                                    190
                                }
                            }
                        } else {
                            if s[1] <= 's' {
                                85
                            } else {
                                if s[3] <= 'd' {
                                    217
                                } else {
                                    86
                                }
                            }
                        }
                    }
                }
            }
        } else {
            if s.len() <= 9 {
                if s[1] <= 'd' {
                    if s.len() <= 7 {
                        if s.len() <= 5 {
                            if s[0] <= 'l' {
                                if s[1] <= 'a' {
                                    44
                                } else {
                                    46
                                }
                            } else {
                                132
                            }
                        } else {
                            if s.len() <= 6 {
                                if s[0] <= 'l' {
                                    165
                                } else {
                                    69
                                }
                            } else {
                                109
                            }
                        }
                    } else {
                        if s[0] <= 'g' {
                            if s.len() <= 8 {
                                if s[1] <= '1' {
                                    131
                                } else {
                                    130
                                }
                            } else {
                                126
                            }
                        } else {
                            if s[7] <= 'c' {
                                if s[7] <= 'b' {
                                    74
                                } else {
                                    70
                                }
                            } else {
                                if s[7] <= 'd' {
                                    73
                                } else {
                                    72
                                }
                            }
                        }
                    }
                } else {
                    if s[3] <= 'i' {
                        if s.len() <= 7 {
                            if s.len() <= 5 {
                                133
                            } else {
                                if s.len() <= 6 {
                                    77
                                } else {
                                    61
                                }
                            }
                        } else {
                            if s.len() <= 8 {
                                113
                            } else {
                                if s[8] <= '1' {
                                    if s[8] <= '0' {
                                        107
                                    } else {
                                        112
                                    }
                                } else {
                                    209
                                }
                            }
                        }
                    } else {
                        if s.len() <= 7 {
                            if s.len() <= 5 {
                                142
                            } else {
                                if s.len() <= 6 {
                                    76
                                } else {
                                    67
                                }
                            }
                        } else {
                            if s[6] <= 'n' {
                                if s[7] <= 'e' {
                                    64
                                } else {
                                    65
                                }
                            } else {
                                if s.len() <= 8 {
                                    66
                                } else {
                                    166
                                }
                            }
                        }
                    }
                }
            } else {
                if s[3] <= 'e' {
                    if s[11] <= 'e' {
                        if s.len() <= 15 {
                            if s.len() <= 14 {
                                if s[1] <= 'm' {
                                    181
                                } else {
                                    120
                                }
                            } else {
                                184
                            }
                        } else {
                            if s.len() <= 16 {
                                178
                            } else {
                                if s.len() <= 18 {
                                    179
                                } else {
                                    185
                                }
                            }
                        }
                    } else {
                        if s[11] <= 'o' {
                            if s.len() <= 13 {
                                182
                            } else {
                                if s[12] <= 'a' {
                                    180
                                } else {
                                    if s[13] <= 'a' {
                                        186
                                    } else {
                                        187
                                    }
                                }
                            }
                        } else {
                            if s[12] <= 'm' {
                                if s[13] <= 'a' {
                                    188
                                } else {
                                    189
                                }
                            } else {
                                if s.len() <= 14 {
                                    183
                                } else {
                                    114
                                }
                            }
                        }
                    }
                } else {
                    if s[0] <= 'h' {
                        if s.len() <= 11 {
                            if s.len() <= 10 {
                                127
                            } else {
                                if s[9] <= 'h' {
                                    135
                                } else {
                                    136
                                }
                            }
                        } else {
                            if s.len() <= 12 {
                                if s[0] <= 'f' {
                                    137
                                } else {
                                    128
                                }
                            } else {
                                if s[3] <= 'f' {
                                    115
                                } else {
                                    116
                                }
                            }
                        }
                    } else {
                        if s.len() <= 11 {
                            if s.len() <= 10 {
                                110
                            } else {
                                if s[7] <= 'c' {
                                    71
                                } else {
                                    111
                                }
                            }
                        } else {
                            if s.len() <= 13 {
                                if s.len() <= 12 {
                                    163
                                } else {
                                    167
                                }
                            } else {
                                if s.len() <= 15 {
                                    164
                                } else {
                                    168
                                }
                            }
                        }
                    }
                }
            }
        }
    }
}

proof fn lemma_mnemonics_0(v: u32)
    requires
        0 <= v <= 7,
    ensures
        is_mnemonic(Opcode::spec_from_u32(v).mnemonic()),
        mnemonic_key(Opcode::spec_from_u32(v).mnemonic()) == v,
{
    reveal(is_mnemonic);
    reveal(mnemonic_key);
    if v == 0 {
        reveal_strlit("add");
    }
    if v == 1 {
        reveal_strlit("and");
    }
    if v == 2 {
        reveal_strlit("break");
    }
    if v == 3 {
        reveal_strlit("breakc");
    }
    if v == 4 {
        reveal_strlit("call");
    }
    if v == 5 {
        reveal_strlit("callc");
    }
    if v == 6 {
        reveal_strlit("case");
    }
    if v == 7 {
        reveal_strlit("continue");
    }
}

proof fn lemma_mnemonics_1(v: u32)
    requires
        8 <= v <= 15,
    ensures
        is_mnemonic(Opcode::spec_from_u32(v).mnemonic()),
        mnemonic_key(Opcode::spec_from_u32(v).mnemonic()) == v,
{
    reveal(is_mnemonic);
    reveal(mnemonic_key);
    if v == 8 {
        reveal_strlit("continuec");
    }
    if v == 9 {
        reveal_strlit("cut");
    }
    if v == 10 {
        reveal_strlit("default");
    }
    if v == 11 {
        reveal_strlit("deriv_rtx");
    }
    if v == 12 {
        reveal_strlit("deriv_rty");
    }
    if v == 13 {
        reveal_strlit("discard");
    }
    if v == 14 {
        reveal_strlit("div");
    }
    if v == 15 {
        reveal_strlit("dp2");
    }
}

proof fn lemma_mnemonics_2(v: u32)
    requires
        16 <= v <= 23,
    ensures
        is_mnemonic(Opcode::spec_from_u32(v).mnemonic()),
        mnemonic_key(Opcode::spec_from_u32(v).mnemonic()) == v,
{
    reveal(is_mnemonic);
    reveal(mnemonic_key);
    if v == 16 {
        reveal_strlit("dp3");
    }
    if v == 17 {
        reveal_strlit("dp4");
    }
    if v == 18 {
        reveal_strlit("else");
    }
    if v == 19 {
        reveal_strlit("emit");
    }
    if v == 20 {
        reveal_strlit("emitThenCut");
    }
    if v == 21 {
        reveal_strlit("endif");
    }
    if v == 22 {
        reveal_strlit("endloop");
    }
    if v == 23 {
        reveal_strlit("endswitch");
    }
}

proof fn lemma_mnemonics_3(v: u32)
    requires
        24 <= v <= 31,
    ensures
        is_mnemonic(Opcode::spec_from_u32(v).mnemonic()),
        mnemonic_key(Opcode::spec_from_u32(v).mnemonic()) == v,
{
    reveal(is_mnemonic);
    reveal(mnemonic_key);
    if v == 24 {
        reveal_strlit("eq");
    }
    if v == 25 {
        reveal_strlit("exp");
    }
    if v == 26 {
        reveal_strlit("frc");
    }
    if v == 27 {
        reveal_strlit("ftoi");
    }
    if v == 28 {
        reveal_strlit("ftou");
    }
    if v == 29 {
        reveal_strlit("ge");
    }
    if v == 30 {
        reveal_strlit("iadd");
    }
    if v == 31 {
        reveal_strlit("if");
    }
}

proof fn lemma_mnemonics_4(v: u32)
    requires
        32 <= v <= 39,
    ensures
        is_mnemonic(Opcode::spec_from_u32(v).mnemonic()),
        mnemonic_key(Opcode::spec_from_u32(v).mnemonic()) == v,
{
    reveal(is_mnemonic);
    reveal(mnemonic_key);
    if v == 32 {
        reveal_strlit("ieq");
    }
    if v == 33 {
        reveal_strlit("ige");
    }
    if v == 34 {
        reveal_strlit("ilt");
    }
    if v == 35 {
        reveal_strlit("imad");
    }
    if v == 36 {
        reveal_strlit("imax");
    }
    if v == 37 {
        reveal_strlit("imin");
    }
    if v == 38 {
        reveal_strlit("imul");
    }
    if v == 39 {
        reveal_strlit("ine");
    }
}

proof fn lemma_mnemonics_5(v: u32)
    requires
        40 <= v <= 47,
    ensures
        is_mnemonic(Opcode::spec_from_u32(v).mnemonic()),
        mnemonic_key(Opcode::spec_from_u32(v).mnemonic()) == v,
{
    reveal(is_mnemonic);
    reveal(mnemonic_key);
    if v == 40 {
        reveal_strlit("ineg");
    }
    if v == 41 {
        reveal_strlit("ishl");
    }
    if v == 42 {
        reveal_strlit("ishr");
    }
    if v == 43 {
        reveal_strlit("itof");
    }
    if v == 44 {
        reveal_strlit("label");
    }
    if v == 45 {
        reveal_strlit("ld");
    }
    if v == 46 {
        reveal_strlit("ld_ms");
    }
    if v == 47 {
        reveal_strlit("log");
    }
}

proof fn lemma_mnemonics_6(v: u32)
    requires
        48 <= v <= 55,
    ensures
        is_mnemonic(Opcode::spec_from_u32(v).mnemonic()),
        mnemonic_key(Opcode::spec_from_u32(v).mnemonic()) == v,
{
    reveal(is_mnemonic);
    reveal(mnemonic_key);
    if v == 48 {
        reveal_strlit("loop");
    }
    if v == 49 {
        reveal_strlit("lt");
    }
    if v == 50 {
        reveal_strlit("mad");
    }
    if v == 51 {
        reveal_strlit("min");
    }
    if v == 52 {
        reveal_strlit("max");
    }
    if v == 53 {
        reveal_strlit("customdata");
    }
    if v == 54 {
        reveal_strlit("mov");
    }
    if v == 55 {
        reveal_strlit("movc");
    }
}

proof fn lemma_mnemonics_7(v: u32)
    requires
        56 <= v <= 63,
    ensures
        is_mnemonic(Opcode::spec_from_u32(v).mnemonic()),
        mnemonic_key(Opcode::spec_from_u32(v).mnemonic()) == v,
{
    reveal(is_mnemonic);
    reveal(mnemonic_key);
    if v == 56 {
        reveal_strlit("mul");
    }
    if v == 57 {
        reveal_strlit("ne");
    }
    if v == 58 {
        reveal_strlit("nop");
    }
    if v == 59 {
        reveal_strlit("not");
    }
    if v == 60 {
        reveal_strlit("or");
    }
    if v == 61 {
        reveal_strlit("resinfo");
    }
    if v == 62 {
        reveal_strlit("ret");
    }
    if v == 63 {
        reveal_strlit("retc");
    }
}

proof fn lemma_mnemonics_8(v: u32)
    requires
        64 <= v <= 71,
    ensures
        is_mnemonic(Opcode::spec_from_u32(v).mnemonic()),
        mnemonic_key(Opcode::spec_from_u32(v).mnemonic()) == v,
{
    reveal(is_mnemonic);
    reveal(mnemonic_key);
    if v == 64 {
        reveal_strlit("round_ne");
    }
    if v == 65 {
        reveal_strlit("round_ni");
    }
    if v == 66 {
        reveal_strlit("round_pi");
    }
    if v == 67 {
        reveal_strlit("round_z");
    }
    if v == 68 {
        reveal_strlit("rsq");
    }
    if v == 69 {
        reveal_strlit("sample");
    }
    if v == 70 {
        reveal_strlit("sample_c");
    }
    if v == 71 {
        reveal_strlit("sample_c_lz");
    }
}

proof fn lemma_mnemonics_9(v: u32)
    requires
        72 <= v <= 79,
    ensures
        is_mnemonic(Opcode::spec_from_u32(v).mnemonic()),
        mnemonic_key(Opcode::spec_from_u32(v).mnemonic()) == v,
{
    reveal(is_mnemonic);
    reveal(mnemonic_key);
    if v == 72 {
        reveal_strlit("sample_l");
    }
    if v == 73 {
        reveal_strlit("sample_d");
    }
    if v == 74 {
        reveal_strlit("sample_b");
    }
    if v == 75 {
        reveal_strlit("sqrt");
    }
    if v == 76 {
        reveal_strlit("switch");
    }
    if v == 77 {
        reveal_strlit("sincos");
    }
    if v == 78 {
        reveal_strlit("udiv");
    }
    if v == 79 {
        reveal_strlit("ult");
    }
}

proof fn lemma_mnemonics_10(v: u32)
    requires
        80 <= v <= 87,
    ensures
        is_mnemonic(Opcode::spec_from_u32(v).mnemonic()),
        mnemonic_key(Opcode::spec_from_u32(v).mnemonic()) == v,
{
    reveal(is_mnemonic);
    reveal(mnemonic_key);
    if v == 80 {
        reveal_strlit("uge");
    }
    if v == 81 {
        reveal_strlit("umul");
    }
    if v == 82 {
        reveal_strlit("umad");
    }
    if v == 83 {
        reveal_strlit("umax");
    }
    if v == 84 {
        reveal_strlit("umin");
    }
    if v == 85 {
        reveal_strlit("ushr");
    }
    if v == 86 {
        reveal_strlit("utof");
    }
    if v == 87 {
        reveal_strlit("xor");
    }
}

proof fn lemma_mnemonics_11(v: u32)
    requires
        88 <= v <= 95,
    ensures
        is_mnemonic(Opcode::spec_from_u32(v).mnemonic()),
        mnemonic_key(Opcode::spec_from_u32(v).mnemonic()) == v,
{
    reveal(is_mnemonic);
    reveal(mnemonic_key);
    if v == 88 {
        reveal_strlit("dcl_resource");
    }
    if v == 89 {
        reveal_strlit("dcl_constantbuffer");
    }
    if v == 90 {
        reveal_strlit("dcl_sampler");
    }
    if v == 91 {
        reveal_strlit("dcl_indexRange");
    }
    if v == 92 {
        reveal_strlit("dcl_gsOutputPrimitiveTopology");
    }
    if v == 93 {
        reveal_strlit("dcl_gsInputPrimitive");
    }
    if v == 94 {
        reveal_strlit("dcl_maxOutputVertexCount");
    }
    if v == 95 {
        reveal_strlit("dcl_input");
    }
}

proof fn lemma_mnemonics_12(v: u32)
    requires
        96 <= v <= 103,
    ensures
        is_mnemonic(Opcode::spec_from_u32(v).mnemonic()),
        mnemonic_key(Opcode::spec_from_u32(v).mnemonic()) == v,
{
    reveal(is_mnemonic);
    reveal(mnemonic_key);
    if v == 96 {
        reveal_strlit("dcl_input_sgv");
    }
    if v == 97 {
        reveal_strlit("dcl_input_siv");
    }
    if v == 98 {
        reveal_strlit("dcl_input_ps");
    }
    if v == 99 {
        reveal_strlit("dcl_input_ps_sgv");
    }
    if v == 100 {
        reveal_strlit("dcl_input_ps_siv");
    }
    if v == 101 {
        reveal_strlit("dcl_output");
    }
    if v == 102 {
        reveal_strlit("dcl_output_sgv");
    }
    if v == 103 {
        reveal_strlit("dcl_output_siv");
    }
}

proof fn lemma_mnemonics_13(v: u32)
    requires
        104 <= v <= 111,
    ensures
        is_mnemonic(Opcode::spec_from_u32(v).mnemonic()),
        mnemonic_key(Opcode::spec_from_u32(v).mnemonic()) == v,
{
    reveal(is_mnemonic);
    reveal(mnemonic_key);
    if v == 104 {
        reveal_strlit("dcl_temps");
    }
    if v == 105 {
        reveal_strlit("dcl_indexableTemp");
    }
    if v == 106 {
        reveal_strlit("dcl_globalFlags");
    }
    if v == 107 {
        reveal_strlit("reserved0");
    }
    if v == 108 {
        reveal_strlit("lod");
    }
    if v == 109 {
        reveal_strlit("gather4");
    }
    if v == 110 {
        reveal_strlit("sample_pos");
    }
    if v == 111 {
        reveal_strlit("sample_info");
    }
}

proof fn lemma_mnemonics_14(v: u32)
    requires
        112 <= v <= 119,
    ensures
        is_mnemonic(Opcode::spec_from_u32(v).mnemonic()),
        mnemonic_key(Opcode::spec_from_u32(v).mnemonic()) == v,
{
    reveal(is_mnemonic);
    reveal(mnemonic_key);
    if v == 112 {
        reveal_strlit("reserved1");
    }
    if v == 113 {
        reveal_strlit("hs_decls");
    }
    if v == 114 {
        reveal_strlit("hs_control_point_phase");
    }
    if v == 115 {
        reveal_strlit("hs_fork_phase");
    }
    if v == 116 {
        reveal_strlit("hs_join_phase");
    }
    if v == 117 {
        reveal_strlit("emit_stream");
    }
    if v == 118 {
        reveal_strlit("cut_stream");
    }
    if v == 119 {
        reveal_strlit("emitThenCut_stream");
    }
}

proof fn lemma_mnemonics_15(v: u32)
    requires
        120 <= v <= 127,
    ensures
        is_mnemonic(Opcode::spec_from_u32(v).mnemonic()),
        mnemonic_key(Opcode::spec_from_u32(v).mnemonic()) == v,
{
    reveal(is_mnemonic);
    reveal(mnemonic_key);
    if v == 120 {
        reveal_strlit("interface_call");
    }
    if v == 121 {
        reveal_strlit("bufinfo");
    }
    if v == 122 {
        reveal_strlit("deriv_rtx_coarse");
    }
    if v == 123 {
        reveal_strlit("deriv_rtx_fine");
    }
    if v == 124 {
        reveal_strlit("deriv_rty_coarse");
    }
    if v == 125 {
        reveal_strlit("deriv_rty_fine");
    }
    if v == 126 {
        reveal_strlit("gather4_c");
    }
    if v == 127 {
        reveal_strlit("gather4_po");
    }
}

proof fn lemma_mnemonics_16(v: u32)
    requires
        128 <= v <= 135,
    ensures
        is_mnemonic(Opcode::spec_from_u32(v).mnemonic()),
        mnemonic_key(Opcode::spec_from_u32(v).mnemonic()) == v,
{
    reveal(is_mnemonic);
    reveal(mnemonic_key);
    if v == 128 {
        reveal_strlit("gather4_po_c");
    }
    if v == 129 {
        reveal_strlit("rcp");
    }
    if v == 130 {
        reveal_strlit("f32tof16");
    }
    if v == 131 {
        reveal_strlit("f16tof32");
    }
    if v == 132 {
        reveal_strlit("uaddc");
    }
    if v == 133 {
        reveal_strlit("usubb");
    }
    if v == 134 {
        reveal_strlit("countbits");
    }
    if v == 135 {
        reveal_strlit("firstbit_hi");
    }
}

proof fn lemma_mnemonics_17(v: u32)
    requires
        136 <= v <= 143,
    ensures
        is_mnemonic(Opcode::spec_from_u32(v).mnemonic()),
        mnemonic_key(Opcode::spec_from_u32(v).mnemonic()) == v,
{
    reveal(is_mnemonic);
    reveal(mnemonic_key);
    if v == 136 {
        reveal_strlit("firstbit_lo");
    }
    if v == 137 {
        reveal_strlit("firstbit_shi");
    }
    if v == 138 {
        reveal_strlit("ubfe");
    }
    if v == 139 {
        reveal_strlit("ibfe");
    }
    if v == 140 {
        reveal_strlit("bfi");
    }
    if v == 141 {
        reveal_strlit("bfrev");
    }
    if v == 142 {
        reveal_strlit("swapc");
    }
    if v == 143 {
        reveal_strlit("dcl_stream");
    }
}

proof fn lemma_mnemonics_18(v: u32)
    requires
        144 <= v <= 151,
    ensures
        is_mnemonic(Opcode::spec_from_u32(v).mnemonic()),
        mnemonic_key(Opcode::spec_from_u32(v).mnemonic()) == v,
{
    reveal(is_mnemonic);
    reveal(mnemonic_key);
    if v == 144 {
        reveal_strlit("dcl_function_body");
    }
    if v == 145 {
        reveal_strlit("dcl_function_table");
    }
    if v == 146 {
        reveal_strlit("dcl_interface");
    }
    if v == 147 {
        reveal_strlit("dcl_input_control_point_count");
    }
    if v == 148 {
        reveal_strlit("dcl_output_control_point_count");
    }
    if v == 149 {
        reveal_strlit("dcl_tess_domain");
    }
    if v == 150 {
        reveal_strlit("dcl_tess_partitioning");
    }
    if v == 151 {
        reveal_strlit("dcl_tess_output_primitive");
    }
}

proof fn lemma_mnemonics_19(v: u32)
    requires
        152 <= v <= 159,
    ensures
        is_mnemonic(Opcode::spec_from_u32(v).mnemonic()),
        mnemonic_key(Opcode::spec_from_u32(v).mnemonic()) == v,
{
    reveal(is_mnemonic);
    reveal(mnemonic_key);
    if v == 152 {
        reveal_strlit("dcl_hsMaxTessFactor");
    }
    if v == 153 {
        reveal_strlit("dcl_hs_fork_phase_instance_count");
    }
    if v == 154 {
        reveal_strlit("dcl_hs_join_phase_instance_count");
    }
    if v == 155 {
        reveal_strlit("dcl_thread_group");
    }
    if v == 156 {
        reveal_strlit("dcl_uav_typed");
    }
    if v == 157 {
        reveal_strlit("dcl_uav_raw");
    }
    if v == 158 {
        reveal_strlit("dcl_uav_structured");
    }
    if v == 159 {
        reveal_strlit("dcl_tgsm_raw");
    }
}

proof fn lemma_mnemonics_20(v: u32)
    requires
        160 <= v <= 167,
    ensures
        is_mnemonic(Opcode::spec_from_u32(v).mnemonic()),
        mnemonic_key(Opcode::spec_from_u32(v).mnemonic()) == v,
{
    reveal(is_mnemonic);
    reveal(mnemonic_key);
    if v == 160 {
        reveal_strlit("dcl_tgsm_structured");
    }
    if v == 161 {
        reveal_strlit("dcl_resource_raw");
    }
    if v == 162 {
        reveal_strlit("dcl_resource_structured");
    }
    if v == 163 {
        reveal_strlit("ld_uav_typed");
    }
    if v == 164 {
        reveal_strlit("store_uav_typed");
    }
    if v == 165 {
        reveal_strlit("ld_raw");
    }
    if v == 166 {
        reveal_strlit("store_raw");
    }
    if v == 167 {
        reveal_strlit("ld_structured");
    }
}

proof fn lemma_mnemonics_21(v: u32)
    requires
        168 <= v <= 175,
    ensures
        is_mnemonic(Opcode::spec_from_u32(v).mnemonic()),
        mnemonic_key(Opcode::spec_from_u32(v).mnemonic()) == v,
{
    reveal(is_mnemonic);
    reveal(mnemonic_key);
    if v == 168 {
        reveal_strlit("store_structured");
    }
    if v == 169 {
        reveal_strlit("atomic_and");
    }
    if v == 170 {
        reveal_strlit("atomic_or");
    }
    if v == 171 {
        reveal_strlit("atomic_xor");
    }
    if v == 172 {
        reveal_strlit("atomic_cmp_store");
    }
    if v == 173 {
        reveal_strlit("atomic_iadd");
    }
    if v == 174 {
        reveal_strlit("atomic_imax");
    }
    if v == 175 {
        reveal_strlit("atomic_imin");
    }
}

proof fn lemma_mnemonics_22(v: u32)
    requires
        176 <= v <= 183,
    ensures
        is_mnemonic(Opcode::spec_from_u32(v).mnemonic()),
        mnemonic_key(Opcode::spec_from_u32(v).mnemonic()) == v,
{
    reveal(is_mnemonic);
    reveal(mnemonic_key);
    if v == 176 {
        reveal_strlit("atomic_umax");
    }
    if v == 177 {
        reveal_strlit("atomic_umin");
    }
    if v == 178 {
        reveal_strlit("imm_atomic_alloc");
    }
    if v == 179 {
        reveal_strlit("imm_atomic_consume");
    }
    if v == 180 {
        reveal_strlit("imm_atomic_iadd");
    }
    if v == 181 {
        reveal_strlit("imm_atomic_and");
    }
    if v == 182 {
        reveal_strlit("imm_atomic_or");
    }
    if v == 183 {
        reveal_strlit("imm_atomic_xor");
    }
}

proof fn lemma_mnemonics_23(v: u32)
    requires
        184 <= v <= 191,
    ensures
        is_mnemonic(Opcode::spec_from_u32(v).mnemonic()),
        mnemonic_key(Opcode::spec_from_u32(v).mnemonic()) == v,
{
    reveal(is_mnemonic);
    reveal(mnemonic_key);
    if v == 184 {
        reveal_strlit("imm_atomic_exch");
    }
    if v == 185 {
        reveal_strlit("imm_atomic_cmp_exch");
    }
    if v == 186 {
        reveal_strlit("imm_atomic_imax");
    }
    if v == 187 {
        reveal_strlit("imm_atomic_imin");
    }
    if v == 188 {
        reveal_strlit("imm_atomic_umax");
    }
    if v == 189 {
        reveal_strlit("imm_atomic_umin");
    }
    if v == 190 {
        reveal_strlit("sync");
    }
    if v == 191 {
        reveal_strlit("dadd");
    }
}

proof fn lemma_mnemonics_24(v: u32)
    requires
        192 <= v <= 199,
    ensures
        is_mnemonic(Opcode::spec_from_u32(v).mnemonic()),
        mnemonic_key(Opcode::spec_from_u32(v).mnemonic()) == v,
{
    reveal(is_mnemonic);
    reveal(mnemonic_key);
    if v == 192 {
        reveal_strlit("dmax");
    }
    if v == 193 {
        reveal_strlit("dmin");
    }
    if v == 194 {
        reveal_strlit("dmul");
    }
    if v == 195 {
        reveal_strlit("deq");
    }
    if v == 196 {
        reveal_strlit("dge");
    }
    if v == 197 {
        reveal_strlit("dlt");
    }
    if v == 198 {
        reveal_strlit("dne");
    }
    if v == 199 {
        reveal_strlit("dmov");
    }
}

proof fn lemma_mnemonics_25(v: u32)
    requires
        200 <= v <= 207,
    ensures
        is_mnemonic(Opcode::spec_from_u32(v).mnemonic()),
        mnemonic_key(Opcode::spec_from_u32(v).mnemonic()) == v,
{
    reveal(is_mnemonic);
    reveal(mnemonic_key);
    if v == 200 {
        reveal_strlit("dmovc");
    }
    if v == 201 {
        reveal_strlit("dtof");
    }
    if v == 202 {
        reveal_strlit("ftod");
    }
    if v == 203 {
        reveal_strlit("eval_snapped");
    }
    if v == 204 {
        reveal_strlit("eval_sample_index");
    }
    if v == 205 {
        reveal_strlit("eval_centroid");
    }
    if v == 206 {
        reveal_strlit("dcl_gs_instance_count");
    }
    if v == 207 {
        reveal_strlit("abort");
    }
}

proof fn lemma_mnemonics_26(v: u32)
    requires
        208 <= v <= 215,
    ensures
        is_mnemonic(Opcode::spec_from_u32(v).mnemonic()),
        mnemonic_key(Opcode::spec_from_u32(v).mnemonic()) == v,
{
    reveal(is_mnemonic);
    reveal(mnemonic_key);
    if v == 208 {
        reveal_strlit("debug_break");
    }
    if v == 209 {
        reveal_strlit("reserved2");
    }
    if v == 210 {
        reveal_strlit("ddiv");
    }
    if v == 211 {
        reveal_strlit("dfma");
    }
    if v == 212 {
        reveal_strlit("drcp");
    }
    if v == 213 {
        reveal_strlit("msad");
    }
    if v == 214 {
        reveal_strlit("dtoi");
    }
    if v == 215 {
        reveal_strlit("dtou");
    }
}

proof fn lemma_mnemonics_27(v: u32)
    requires
        216 <= v <= 217,
    ensures
        is_mnemonic(Opcode::spec_from_u32(v).mnemonic()),
        mnemonic_key(Opcode::spec_from_u32(v).mnemonic()) == v,
{
    reveal(is_mnemonic);
    reveal(mnemonic_key);
    if v == 216 {
        reveal_strlit("itod");
    }
    if v == 217 {
        reveal_strlit("utod");
    }
}

/// Every mnemonic is one, and tells the opcode.
pub proof fn lemma_mnemonic(v: u32)
    requires
        v < 218,
    ensures
        is_mnemonic(Opcode::spec_from_u32(v).mnemonic()),
        mnemonic_key(Opcode::spec_from_u32(v).mnemonic()) == v,
{
    if v <= 7 {
        lemma_mnemonics_0(v);
    } else if v <= 15 {
        lemma_mnemonics_1(v);
    } else if v <= 23 {
        lemma_mnemonics_2(v);
    } else if v <= 31 {
        lemma_mnemonics_3(v);
    } else if v <= 39 {
        lemma_mnemonics_4(v);
    } else if v <= 47 {
        lemma_mnemonics_5(v);
    } else if v <= 55 {
        lemma_mnemonics_6(v);
    } else if v <= 63 {
        lemma_mnemonics_7(v);
    } else if v <= 71 {
        lemma_mnemonics_8(v);
    } else if v <= 79 {
        lemma_mnemonics_9(v);
    } else if v <= 87 {
        lemma_mnemonics_10(v);
    } else if v <= 95 {
        lemma_mnemonics_11(v);
    } else if v <= 103 {
        lemma_mnemonics_12(v);
    } else if v <= 111 {
        lemma_mnemonics_13(v);
    } else if v <= 119 {
        lemma_mnemonics_14(v);
    } else if v <= 127 {
        lemma_mnemonics_15(v);
    } else if v <= 135 {
        lemma_mnemonics_16(v);
    } else if v <= 143 {
        lemma_mnemonics_17(v);
    } else if v <= 151 {
        lemma_mnemonics_18(v);
    } else if v <= 159 {
        lemma_mnemonics_19(v);
    } else if v <= 167 {
        lemma_mnemonics_20(v);
    } else if v <= 175 {
        lemma_mnemonics_21(v);
    } else if v <= 183 {
        lemma_mnemonics_22(v);
    } else if v <= 191 {
        lemma_mnemonics_23(v);
    } else if v <= 199 {
        lemma_mnemonics_24(v);
    } else if v <= 207 {
        lemma_mnemonics_25(v);
    } else if v <= 215 {
        lemma_mnemonics_26(v);
    } else {
        lemma_mnemonics_27(v);
    }
}

// ---------------------------------------------------------------------------
// Register files
// ---------------------------------------------------------------------------

/// What holds of the prefix of every register file: it is made of letters and
/// underscores, and is not the beginning of a tag.
#[verifier::opaque]
pub open spec fn is_register_prefix(s: Seq<char>) -> bool {
    &&& s.len() > 0
    &&& forall|i: int| 0 <= i < s.len() ==> is_name_char(#[trigger] s[i])
    &&& !(s.len() >= 2 && s[0] == 's' && s[1] == 'v')
    &&& !(s.len() >= 6 && s[0] == 'i' && s[5] == 'p')
    &&& s[0] != '_'
}

/// The number of the register file with the prefix `s`, told by a few characters.
#[verifier::opaque]
pub open spec fn register_key(s: Seq<char>) -> u32 {
    if s.len() <= 6 {
        if s.len() <= 1 {
            if s[0] <= 'r' {
                if s[0] <= 'l' {
                    if s[0] <= 'g' {
                        if s[0] <= 'd' {
                            5
                        } else {
                            31
                        }
                    } else {
                        4
                    }
                } else {
                    if s[0] <= 'o' {
                        2
                    } else {
                        0
                    }
                }
            } else {
                if s[0] <= 't' {
                    if s[0] <= 's' {
                        6
                    } else {
                        7
                    }
                } else {
                    if s[0] <= 'u' {
                        30
                    } else {
                        if s[0] <= 'v' {
                            1
                        } else {
                            3
                        }
                    }
                }
            }
        } else {
            if s.len() <= 4 {
                if s.len() <= 3 {
                    if s.len() <= 2 {
                        8
                    } else {
                        if s[0] <= 'i' {
                            9
                        } else {
                            27
                        }
                    }
                } else {
                    if s[0] <= 'n' {
                        13
                    } else {
                        if s[1] <= 'i' {
                            25
                        } else {
                            26
                        }
                    }
                }
            } else {
                if s.len() <= 5 {
                    if s[0] <= 'o' {
                        if s[0] <= 'l' {
                            10
                        } else {
                            15
                        }
                    } else {
                        11
                    }
                } else {
                    if s[0] <= 'o' {
                        12
                    } else {
                        16
                    }
                }
            }
        }
    } else {
        if s[4] <= 'l' {
            if s.len() <= 11 {
                if s.len() <= 9 {
                    if s.len() <= 7 {
                        28
                    } else {
                        if s[1] <= 'C' {
                            35
                        } else {
                            32
                        }
                    }
                } else {
                    if s.len() <= 10 {
                        14
                    } else {
                        29
                    }
                }
            } else {
                if s.len() <= 14 {
                    if s.len() <= 13 {
                        40
                    } else {
                        33
                    }
                } else {
                    if s.len() <= 16 {
                        if s.len() <= 15 {
                            23
                        } else {
                            34
                        }
                    } else {
                        36
                    }
                }
            }
        } else {
            if s.len() <= 13 {
                if s.len() <= 8 {
                    if s[6] <= 'G' {
                        38
                    } else {
                        39
                    }
                } else {
                    if s.len() <= 9 {
                        19
                    } else {
                        if s[0] <= 'f' {
                            17
                        } else {
                            37
                        }
                    }
                }
            } else {
                if s.len() <= 14 {
                    if s[9] <= 'i' {
                        20
                    } else {
                        18
                    }
                } else {
                    if s.len() <= 15 {
                        if s[0] <= 'f' {
                            21
                        } else {
                            24
                        }
                    } else {
                        22
                    }
                }
            }
        }
    }
}

proof fn lemma_registers_0(v: u32)
    requires
        0 <= v <= 7,
    ensures
        is_register_prefix(RegisterType::spec_from_u32(v).prefix_text()),
        register_key(RegisterType::spec_from_u32(v).prefix_text()) == v,
{
    reveal(is_register_prefix);
    reveal(register_key);
    if v == 0 {
        reveal_strlit("r");
    }
    if v == 1 {
        reveal_strlit("v");
    }
    if v == 2 {
        reveal_strlit("o");
    }
    if v == 3 {
        reveal_strlit("x");
    }
    if v == 4 {
        reveal_strlit("l");
    }
    if v == 5 {
        reveal_strlit("d");
    }
    if v == 6 {
        reveal_strlit("s");
    }
    if v == 7 {
        reveal_strlit("t");
    }
}

proof fn lemma_registers_1(v: u32)
    requires
        8 <= v <= 15,
    ensures
        is_register_prefix(RegisterType::spec_from_u32(v).prefix_text()),
        register_key(RegisterType::spec_from_u32(v).prefix_text()) == v,
{
    reveal(is_register_prefix);
    reveal(register_key);
    if v == 8 {
        reveal_strlit("cb");
    }
    if v == 9 {
        reveal_strlit("icb");
    }
    if v == 10 {
        reveal_strlit("label");
    }
    if v == 11 {
        reveal_strlit("vPrim");
    }
    if v == 12 {
        reveal_strlit("oDepth");
    }
    if v == 13 {
        reveal_strlit("null");
    }
    if v == 14 {
        reveal_strlit("rasterizer");
    }
    if v == 15 {
        reveal_strlit("oMask");
    }
}

proof fn lemma_registers_2(v: u32)
    requires
        16 <= v <= 23,
    ensures
        is_register_prefix(RegisterType::spec_from_u32(v).prefix_text()),
        register_key(RegisterType::spec_from_u32(v).prefix_text()) == v,
{
    reveal(is_register_prefix);
    reveal(register_key);
    if v == 16 {
        reveal_strlit("stream");
    }
    if v == 17 {
        reveal_strlit("function_body");
    }
    if v == 18 {
        reveal_strlit("function_table");
    }
    if v == 19 {
        reveal_strlit("interface");
    }
    if v == 20 {
        reveal_strlit("function_input");
    }
    if v == 21 {
        reveal_strlit("function_output");
    }
    if v == 22 {
        reveal_strlit("vOutputControlPointID");
    }
    if v == 23 {
        reveal_strlit("vForkInstanceID");
    }
}

proof fn lemma_registers_3(v: u32)
    requires
        24 <= v <= 31,
    ensures
        is_register_prefix(RegisterType::spec_from_u32(v).prefix_text()),
        register_key(RegisterType::spec_from_u32(v).prefix_text()) == v,
{
    reveal(is_register_prefix);
    reveal(register_key);
    if v == 24 {
        reveal_strlit("vJoinInstanceID");
    }
    if v == 25 {
        reveal_strlit("vicp");
    }
    if v == 26 {
        reveal_strlit("vocp");
    }
    if v == 27 {
        reveal_strlit("vpc");
    }
    if v == 28 {
        reveal_strlit("vDomain");
    }
    if v == 29 {
        reveal_strlit("thisPointer");
    }
    if v == 30 {
        reveal_strlit("u");
    }
    if v == 31 {
        reveal_strlit("g");
    }
}

proof fn lemma_registers_4(v: u32)
    requires
        32 <= v <= 39,
    ensures
        is_register_prefix(RegisterType::spec_from_u32(v).prefix_text()),
        register_key(RegisterType::spec_from_u32(v).prefix_text()) == v,
{
    reveal(is_register_prefix);
    reveal(register_key);
    if v == 32 {
        reveal_strlit("vThreadID");
    }
    if v == 33 {
        reveal_strlit("vThreadGroupID");
    }
    if v == 34 {
        reveal_strlit("vThreadIDInGroup");
    }
    if v == 35 {
        reveal_strlit("vCoverage");
    }
    if v == 36 {
        reveal_strlit("vThreadIDInGroupFlattened");
    }
    if v == 37 {
        reveal_strlit("vGSInstanceID");
    }
    if v == 38 {
        reveal_strlit("oDepthGE");
    }
    if v == 39 {
        reveal_strlit("oDepthLE");
    }
}

proof fn lemma_registers_5(v: u32)
    requires
        40 <= v <= 40,
    ensures
        is_register_prefix(RegisterType::spec_from_u32(v).prefix_text()),
        register_key(RegisterType::spec_from_u32(v).prefix_text()) == v,
{
    reveal(is_register_prefix);
    reveal(register_key);
    if v == 40 {
        reveal_strlit("vCycleCounter");
    }
}

/// Every prefix is one, and tells the register file.
pub proof fn lemma_register_prefix(v: u32)
    requires
        v < 41,
    ensures
        is_register_prefix(RegisterType::spec_from_u32(v).prefix_text()),
        register_key(RegisterType::spec_from_u32(v).prefix_text()) == v,
{
    if v <= 7 {
        lemma_registers_0(v);
    } else if v <= 15 {
        lemma_registers_1(v);
    } else if v <= 23 {
        lemma_registers_2(v);
    } else if v <= 31 {
        lemma_registers_3(v);
    } else if v <= 39 {
        lemma_registers_4(v);
    } else {
        lemma_registers_5(v);
    }
}

} // verus!
