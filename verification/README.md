# exclaim

A template language: plain text with code blocks `{{ .. }}`. A block writes
a value (`{{ write! name | uppercase }}`), binds a name (`{{ let! x = y }}`),
renders the blocks up to `{{!}}` once for each item of a list
(`{{ render! item : list }}`), or closes such a scope (`{{!}}`).

The front end is verified with Verus. Each stage is an executable function
whose contract is a spec function over sequences of characters, token views
and tree views:

- `src/lexer`: the state machine that splits a template into text and tokens
  (`lexer::run` is `lexer::spec_run`), and in `lexer/lexemes` the variant
  whose tokens keep their lexemes. `properties.rs` proves what the lexers
  guarantee of every input: plain text is one literal, labels have the shape
  of labels, tokens are never more than characters.
- `src/parser`: the recursive-descent parser into the arena tree of `src/ast`
  (`parser::run` is `parser::spec::spec_parse`), with the proof that every tree
  it builds is well formed; `node` and `tree` are trees whose nodes own their
  parts, each with its printer.
- `src/semantics`: the analysis that matches each `render!` block with the
  `{{!}}` that closes it and fills in its scope. Its contract holds for every
  tree on which its walk over the blocks comes to an end; on the trees the
  parser builds, whose blocks link forward, it always does, and it accepts
  exactly the trees whose scopes are balanced.
- `src/common/serialize.rs`: the XML-like printer of syntax trees.
- `src/runtime`: what the renderer decides from the tree alone (the text a
  block writes, the statement it runs, the names a pattern binds and how they
  take a value, the blocks a render! block repeats), and the contexts that
  map names to values scope by scope, with the laws of binding and closing a
  scope. `lemma_compiled_trees_can_run` in `src/lib.rs` shows that every tree
  the front end accepts can be read this way.

`app/` holds the rest of the renderer: it computes the values of
expressions, which include floating-point numbers and therefore stay outside
the verified library.
