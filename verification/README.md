# d3dasm

A verified library that turns Direct3D shader containers (DXBC) into editable
text and back. A container that is laid out as the library writes it, with the
right checksum and chunk codes that can stand on a line, comes back byte for
byte; any other comes back with its chunks and the checksum written anew.

- `src/container.rs`, `src/checksum.rs`, `src/shader.rs`: containers, their
  checksum, and the shaders found in them.
- `src/shex/`: shader programs, and their bytecode in both directions.
- `src/chunks/`: statistics, signatures and resource definitions as bytes.
- `src/grammar/`: the texts of programs, statistics, signatures and resource
  definitions, in both directions.
- `src/container_doc.rs`, `src/forensic.rs`: documents of whole containers and
  files, with their descriptive header.
- `src/symbolicate.rs`: names of variables and resources behind instructions.
- `src/generate.rs`: programs made from arbitrary bytes.
- `src/roundtrip/`: the laws that hold between writing and reading.
- `app/`: the command line tool.

Every function of `src/` has a contract. Calls into other crates stand in small
functions whose contracts are taken for granted; the comment above each says
what it claims. Single-precision numbers are held as their bits, and a table
gives the text of each; `app/floats.rs` fills it.
