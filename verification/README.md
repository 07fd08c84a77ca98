# gdscript-formatter index, verified

A library that turns GDScript source into a machine-readable index written as
JSON Lines, with its behaviour stated in Verus contracts and proved. Tools
that run inside Godot know every member of a class but no source positions;
the index hands them the syntactic half: declarations, references, member
chains, string literals, comparisons, comments, annotations, with exact
ranges and the scope each one sits in.

## Layout

- `src/parser.rs` calls the tree-sitter GDScript grammar and copies the tree
  into `src/syntax.rs`, a plain model that verified code reads. What
  tree-sitter reports of each node is named over the source and the node's
  path from the root; the copy is proved to hold exactly those nodes, with
  their data and their children in order, and to be made exactly when every
  node fits the model.
- `src/node_kind.rs` maps grammar symbols to node kinds.
- `src/index.rs` walks the model once, dispatches each node to the collector
  for its kind (`src/index/collectors/`), and carries the scope. Its contract
  is the whole output: the header, then every record, each stated as a
  function of the tree.
- `src/index/paths.rs` decides which path a file is reported under.
- `src/cli.rs` reads the command line into what to run, a help page, the
  version, or an error with its message.
- `app/main.rs` is the program: it reads files, stdin and the command line,
  and prints.

## Properties proved

- Every annotation is reported exactly once: on the one declaration that
  binds it, or as a record of its own.
- No two collectors share a node kind.
- Every line of the index is one record: it opens with `{`, closes with `}`,
  and no text a record carries breaks it, since JSON escaping leaves no
  control character.
- JSON escaping loses nothing: decoding a string the index writes, as RFC
  8259 reads it, gives back the text it was made from.
- The index of a file is the index of the tree tree-sitter builds from it:
  every node, with its data and children in order, and nothing else.
- A declaration leaves a field out exactly when it has nothing to carry, and
  every function reports `body_range`.
- The base of a script reads the same on its `file` header and on its
  `class_name` declaration.
- Ranges are one-based and their byte offsets slice the source exactly.
- A run never mixes `res://` paths with file system paths.
- Decoding a string literal without escapes gives back its contents.

## Running

```
gdscript-formatter index [OPTIONS] [FILES]...
```

`--project-root <PATH>` sets the directory `res://` paths are relative to;
without it, the root is the directory holding `project.godot` above the
inputs. Input piped on stdin is indexed as `<stdin>`.
