//! What the runtime carries through a template: the output so far, the
//! scopes of the template, and the global data given from outside it.
use vstd::prelude::*;

use crate::common::text::push_str;
use super::scope::{scoped_find, with_binding, DataContext, ScopeContext};

verus! {

/// The value of `k`: from the innermost scope that binds it, or else from
/// the global data.
pub open spec fn lookup<V>(scopes: Seq<Map<Seq<char>, V>>, globals: Map<Seq<char>, V>, k: Seq<char>) -> Option<V> {
    match scoped_find(scopes, k) {
        Some(v) => Some(v),
        None => if globals.dom().contains(k) {
            Some(globals[k])
        } else {
            None
        },
    }
}

pub struct RuntimeContext<V> {
    output: String,
    scope_ctx: ScopeContext<V>,
    // Data that is not found inside the template
    global_ctx: DataContext<V>,
}

impl<V> RuntimeContext<V> {
    /// The text written so far.
    pub closed spec fn written(&self) -> Seq<char> {
        self.output@
    }

    /// The scopes of the template, the file's own first.
    pub closed spec fn scopes(&self) -> Seq<Map<Seq<char>, V>> {
        self.scope_ctx@
    }

    /// The global data.
    pub closed spec fn globals(&self) -> Map<Seq<char>, V> {
        self.global_ctx@
    }

    /// Nothing written, the file scope with nothing bound, and the global
    /// data given, if any.
    pub fn new(global: Option<DataContext<V>>) -> (ctx: RuntimeContext<V>)
        ensures
            ctx.written() == Seq::<char>::empty(),
            ctx.scopes() == seq![Map::<Seq<char>, V>::empty()],
            ctx.globals() == match global {
                Some(g) => g@,
                None => Map::<Seq<char>, V>::empty(),
            },
    {
        let global_ctx = match global {
            Some(g) => g,
            None => DataContext::new(),
        };
        RuntimeContext { output: String::new(), scope_ctx: ScopeContext::new(), global_ctx }
    }

    /// How many scopes are open, the file scope included.
    pub fn scope_level(&self) -> (n: usize)
        ensures
            n == self.scopes().len(),
    {
        self.scope_ctx.scope_level()
    }

    pub fn open_scope(&mut self)
        ensures
            final(self).scopes() == old(self).scopes().push(Map::<Seq<char>, V>::empty()),
            final(self).written() == old(self).written(),
            final(self).globals() == old(self).globals(),
    {
        self.scope_ctx.open_scope();
    }

    /// Closes the innermost scope.
    pub fn close_scope(&mut self)
        requires
            old(self).scopes().len() > 0,
        ensures
            final(self).scopes() == old(self).scopes().drop_last(),
            final(self).written() == old(self).written(),
            final(self).globals() == old(self).globals(),
    {
        self.scope_ctx.close_scope();
    }

    /// Binds `key` to `value` in the innermost scope.
    pub fn insert(&mut self, key: String, value: V)
        requires
            old(self).scopes().len() > 0,
        ensures
            final(self).scopes() == with_binding(old(self).scopes(), key@, value),
            final(self).written() == old(self).written(),
            final(self).globals() == old(self).globals(),
    {
        self.scope_ctx.insert(key, value)
    }

    /// Writes the rendering of an item after what is written.
    pub fn render(&mut self, rendering: &str)
        ensures
            final(self).written() == old(self).written() + rendering@,
            final(self).scopes() == old(self).scopes(),
            final(self).globals() == old(self).globals(),
    {
        push_str(&mut self.output, rendering);
    }

    /// The value of `key`: from the innermost scope that binds it, or else
    /// from the global data.
    pub fn get(&self, key: &str) -> (r: Option<&V>)
        ensures
            r is Some <==> lookup(self.scopes(), self.globals(), key@) is Some,
            r matches Some(v) ==> lookup(self.scopes(), self.globals(), key@) == Some(*v),
    {
        match self.scope_ctx.get(key) {
            Some(data) => Some(data),
            None => self.global_ctx.get(key),
        }
    }

    /// What was written.
    pub fn output(self) -> (s: String)
        ensures
            s@ == self.written(),
    {
        self.output
    }
}

/// A name bound in the template hides the global value of that name until
/// its scope closes.
pub proof fn lemma_binding_hides_global<V>(
    scopes: Seq<Map<Seq<char>, V>>,
    globals: Map<Seq<char>, V>,
    k: Seq<char>,
    v: V,
)
    requires
        scopes.len() > 0,
    ensures
        lookup(with_binding(scopes, k, v), globals, k) == Some(v),
{
}

/// A name that no scope binds has its global value.
pub proof fn lemma_unbound_name_is_global<V>(scopes: Seq<Map<Seq<char>, V>>, globals: Map<Seq<char>, V>, k: Seq<char>)
    requires
        scoped_find(scopes, k) is None,
        globals.dom().contains(k),
    ensures
        lookup(scopes, globals, k) == Some(globals[k]),
{
}

} // verus!
