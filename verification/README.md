# hdt

HDT files hold RDF graphs in a compact binary form. This library reads and
writes their headers, keeps the cache files beside them, and picks how a file is
opened. It is written in Rust and verified with Verus: each function states in
its contract what it returns, and the laws that relate functions stand beside
them as proof functions.

- `src/header.rs`: the header, its N-Triples body and the errors of reading it.
- `src/triples/hybrid_cache.rs`: the cache, its file format, reading and writing.
- `src/triples/cache_source.rs`: what a cache keeps of an HDT file.
- `src/triples/cache_load.rs`: loading or generating a cache under locks.
- `src/triples/cache_store.rs`: writing a cache file so that none is found half written.
- `src/triples/wavelet.rs`: the matrices of the `sucds` crate, as bytes.
- `src/four_sect_dict.rs`, `src/hdt.rs`: dictionaries, graphs and their queries.
- `src/hdt_any.rs`: a graph with either backend, and the choice between them.
- `src/containers/`, `src/text.rs`, `src/io_error.rs`: what these are made of.
- `app/`: files, locks and logs around the library.
- `tests/`: its tests.

The parser of N-Triples (`oxttl`), the matrices and vectors (`sucds`) and the
display of sizes (`bytesize`) are called through functions whose contracts are
believed, not proved. Each says so in its comment.
