# omg_idl_code_gen

Reads OMG IDL files and generates Rust types for what they declare. The library is verified
with Verus; `app/` is the command line program around it.

The way of a file through the library:

- `grammar` parses the text with `omg-idl-grammar` and lists the matches as tokens; `token`
  builds the parse trees (`node`) from them.
- `sources` keeps the parse trees of the configured file and of everything it includes, and
  loads no file twice, under whatever name it is included.
- `reader` reads types, expressions and declarations off parse trees; `reading` says what they
  are. `ast` holds the results.
- `processor` walks through the trees and adds the declarations to the modules (`module`,
  `context`); `processing` says what comes of it. `checking` decides whether a tree that was
  built by hand has the parts that this relies on.
- `rust_text` writes types and expressions as Rust does; `render` puts them into the templates
  of `template`, which `minijinja` fills in.
- `generator` goes all the way, or says which file has to be fetched first. The program
  fetches that file and asks again.

What holds of modules and of processing in general is stated and proved in `laws`,
`process_laws`, `repetition`, `wanting` and `runs`, and of loading in `sources`: declarations
stay as they were first made, a file is loaded and read once even if it includes itself, a declaration
that cannot be read changes nothing, what is declared in a module stays out of the modules
around it, processing something again changes nothing, a file is asked for only where it
comes up and is not at hand, and asking ends.
