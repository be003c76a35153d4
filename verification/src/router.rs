//! Routing of tool calls to handlers by name.
//!
//! A router maps tool names to handlers and aliases to canonical names.
//! Alias resolution is one lookup performed before dispatch; registering a
//! name again shadows the earlier handler.

use vstd::prelude::*;

use crate::strutil::str_eq;

verus! {

/// The handler paired with the first matching name, if any.
pub open spec fn spec_lookup<T>(entries: Seq<(String, T)>, key: Seq<char>) -> Option<T>
    decreases entries.len(),
{
    if entries.len() == 0 {
        None
    } else if entries[0].0@ == key {
        Some(entries[0].1)
    } else {
        spec_lookup(entries.drop_first(), key)
    }
}

/// A lookup passes over every entry whose name differs from the key.
proof fn lemma_lookup_skip_prefix<T>(entries: Seq<(String, T)>, i: int, key: Seq<char>)
    requires
        0 <= i <= entries.len(),
        forall|j: int| 0 <= j < i ==> entries[j].0@ != key,
    ensures
        spec_lookup(entries, key) == spec_lookup(entries.skip(i), key),
    decreases i,
{
    if i > 0 {
        assert(entries.drop_first() =~= entries.skip(1));
        lemma_lookup_skip_prefix(entries.skip(1), i - 1, key);
        assert(entries.skip(1).skip(i - 1) =~= entries.skip(i));
    } else {
        assert(entries.skip(0) =~= entries);
    }
}

/// Removing an entry with a different name leaves a lookup unchanged.
proof fn lemma_lookup_remove_other<T>(entries: Seq<(String, T)>, i: int, key: Seq<char>)
    requires
        0 <= i < entries.len(),
        entries[i].0@ != key,
    ensures
        spec_lookup(entries.remove(i), key) == spec_lookup(entries, key),
    decreases i,
{
    if i == 0 {
        assert(entries.remove(0) =~= entries.drop_first());
    } else {
        assert(entries.remove(i).drop_first() =~= entries.drop_first().remove(i - 1));
        lemma_lookup_remove_other(entries.drop_first(), i - 1, key);
        assert(entries.remove(i)[0] == entries[0]);
    }
}

/// A router that maps tool names to handlers.
pub struct Router<H> {
    handlers: Vec<(String, H)>,
    aliases: Vec<(String, String)>,
}

impl<H> Router<H> {
    /// The registered handlers, by name.
    pub closed spec fn spec_handlers(&self) -> Seq<(String, H)> {
        self.handlers@
    }

    /// The registered aliases, by name.
    pub closed spec fn spec_aliases(&self) -> Seq<(String, String)> {
        self.aliases@
    }

    /// The canonical name for a tool name: what its alias maps to, or the
    /// name itself.
    pub open spec fn spec_canonical(&self, name: Seq<char>) -> Seq<char> {
        match spec_lookup(self.spec_aliases(), name) {
            Some(c) => c@,
            None => name,
        }
    }

    /// Create a new empty router.
    pub fn new() -> (r: Self)
        ensures
            r.spec_handlers().len() == 0,
            r.spec_aliases().len() == 0,
    {
        Router { handlers: Vec::new(), aliases: Vec::new() }
    }

    /// Register a tool handler; a handler registered earlier under the
    /// same name is dropped.
    pub fn register(&mut self, tool_name: String, handler: H)
        ensures
            final(self).spec_aliases() == old(self).spec_aliases(),
            forall|key: Seq<char>| #[trigger] spec_lookup(final(self).spec_handlers(), key) == (
            if key == tool_name@ {
                Some(handler)
            } else {
                spec_lookup(old(self).spec_handlers(), key)
            }),
    {
        let ghost orig = self.handlers@;
        let mut idx: usize = 0;
        let mut found = false;
        while idx < self.handlers.len() && !found
            invariant
                self.handlers@ == orig,
                idx <= orig.len(),
                forall|j: int| 0 <= j < idx ==> orig[j].0@ != tool_name@,
                found ==> idx < orig.len() && orig[idx as int].0@ == tool_name@,
            decreases orig.len() - idx, (if found {
                0int
            } else {
                1int
            }),
        {
            if str_eq(self.handlers[idx].0.as_str(), tool_name.as_str()) {
                found = true;
            } else {
                idx = idx + 1;
            }
        }
        let ghost base = if found {
            orig.remove(idx as int)
        } else {
            orig
        };
        if found {
            self.handlers.remove(idx);
        }
        self.handlers.insert(0, (tool_name, handler));
        proof {
            assert(self.handlers@.drop_first() =~= base);
            assert forall|key: Seq<char>| #[trigger] spec_lookup(self.handlers@, key) == (
            if key == tool_name@ {
                Some(handler)
            } else {
                spec_lookup(orig, key)
            }) by {
                if key != tool_name@ {
                    if found {
                        lemma_lookup_remove_other(orig, idx as int, key);
                    }
                }
            }
        }
    }

    /// Register an alias for a tool; an earlier alias under the same name
    /// is dropped.
    pub fn register_alias(&mut self, alias: String, canonical: String)
        ensures
            final(self).spec_handlers() == old(self).spec_handlers(),
            forall|key: Seq<char>| #[trigger] spec_lookup(final(self).spec_aliases(), key) == (
            if key == alias@ {
                Some(canonical)
            } else {
                spec_lookup(old(self).spec_aliases(), key)
            }),
    {
        let ghost orig = self.aliases@;
        let mut idx: usize = 0;
        let mut found = false;
        while idx < self.aliases.len() && !found
            invariant
                self.aliases@ == orig,
                idx <= orig.len(),
                forall|j: int| 0 <= j < idx ==> orig[j].0@ != alias@,
                found ==> idx < orig.len() && orig[idx as int].0@ == alias@,
            decreases orig.len() - idx, (if found {
                0int
            } else {
                1int
            }),
        {
            if str_eq(self.aliases[idx].0.as_str(), alias.as_str()) {
                found = true;
            } else {
                idx = idx + 1;
            }
        }
        let ghost base = if found {
            orig.remove(idx as int)
        } else {
            orig
        };
        if found {
            self.aliases.remove(idx);
        }
        self.aliases.insert(0, (alias, canonical));
        proof {
            assert(self.aliases@.drop_first() =~= base);
            assert forall|key: Seq<char>| #[trigger] spec_lookup(self.aliases@, key) == (
            if key == alias@ {
                Some(canonical)
            } else {
                spec_lookup(orig, key)
            }) by {
                if key != alias@ {
                    if found {
                        lemma_lookup_remove_other(orig, idx as int, key);
                    }
                }
            }
        }
    }

    /// The canonical name for a tool name, as executable code.
    fn resolve_name<'a>(&'a self, name: &'a str) -> (r: &'a str)
        ensures
            r@ == self.spec_canonical(name@),
    {
        let mut i: usize = 0;
        proof {
            assert(self.aliases@.skip(0) =~= self.aliases@);
        }
        while i < self.aliases.len()
            invariant
                i <= self.aliases@.len(),
                forall|j: int| 0 <= j < i ==> self.aliases@[j].0@ != name@,
            decreases self.aliases@.len() - i,
        {
            if str_eq(self.aliases[i].0.as_str(), name) {
                proof {
                    lemma_lookup_skip_prefix(self.aliases@, i as int, name@);
                    assert(self.aliases@.skip(i as int)[0] == self.aliases@[i as int]);
                }
                return self.aliases[i].1.as_str();
            }
            i = i + 1;
        }
        proof {
            lemma_lookup_skip_prefix(self.aliases@, self.aliases@.len() as int, name@);
        }
        name
    }

    /// The index of the handler registered under the canonical form of
    /// the name.
    fn find_handler_index(&self, name: &str) -> (r: Option<usize>)
        ensures
            match r {
                Some(i) => i < self.handlers@.len() && spec_lookup(
                    self.spec_handlers(),
                    self.spec_canonical(name@),
                ) == Some(self.handlers@[i as int].1),
                None => spec_lookup(self.spec_handlers(), self.spec_canonical(name@)) is None,
            },
    {
        let canonical = self.resolve_name(name);
        let mut i: usize = 0;
        while i < self.handlers.len()
            invariant
                canonical@ == self.spec_canonical(name@),
                i <= self.handlers@.len(),
                forall|j: int| 0 <= j < i ==> self.handlers@[j].0@ != canonical@,
            decreases self.handlers@.len() - i,
        {
            if str_eq(self.handlers[i].0.as_str(), canonical) {
                proof {
                    lemma_lookup_skip_prefix(self.handlers@, i as int, canonical@);
                    assert(self.handlers@.skip(i as int)[0] == self.handlers@[i as int]);
                }
                return Some(i);
            }
            i = i + 1;
        }
        proof {
            lemma_lookup_skip_prefix(self.handlers@, self.handlers@.len() as int, canonical@);
        }
        None
    }

    /// Whether a tool (or an alias for it) is registered.
    pub fn has_tool(&self, tool_name: &str) -> (r: bool)
        ensures
            r == (spec_lookup(self.spec_handlers(), self.spec_canonical(tool_name@)) is Some),
    {
        match self.find_handler_index(tool_name) {
            Some(_) => true,
            None => false,
        }
    }

    /// All registered tool names (excluding aliases), newest first.
    pub fn tool_names(&self) -> (r: Vec<String>)
        ensures
            r@.map_values(|s: String| s@) == self.spec_handlers().map_values(
                |p: (String, H)| p.0@,
            ),
    {
        let mut r: Vec<String> = Vec::new();
        let mut i: usize = 0;
        while i < self.handlers.len()
            invariant
                i <= self.handlers@.len(),
                r@.len() == i,
                forall|j: int| 0 <= j < i ==> #[trigger] r@[j]@ == self.handlers@[j].0@,
            decreases self.handlers@.len() - i,
        {
            r.push(self.handlers[i].0.clone());
            i = i + 1;
        }
        proof {
            assert(r@.map_values(|s: String| s@) =~~= self.spec_handlers().map_values(
                |p: (String, H)| p.0@,
            ));
        }
        r
    }
}

impl<H: Fn(&str) -> Result<String, String>> Router<H> {
    /// Route a tool call to its handler: resolve the alias, find the
    /// handler, and run it.  An unknown tool and a handler failure each
    /// yield an error message.
    pub fn route(&self, tool_name: &str, sexpr: &str) -> (r: Result<String, String>)
        requires
            forall|i: int|
                0 <= i < self.spec_handlers().len() ==> #[trigger] self.spec_handlers()[i].1.requires(
                    (sexpr,),
                ),
        ensures
            match spec_lookup(self.spec_handlers(), self.spec_canonical(tool_name@)) {
                None => r matches Err(m) && m@ == "Unknown tool: "@ + tool_name@,
                Some(h) => exists|hr: Result<String, String>|
                    #[trigger] h.ensures((sexpr,), hr) && match hr {
                        Ok(s) => r == Ok::<String, String>(s),
                        Err(e) => r matches Err(m) && m@ == "Error executing tool: "@ + tool_name@
                            + ": "@ + e@,
                    },
            },
    {
        match self.find_handler_index(tool_name) {
            None => {
                let mut m = String::from_str("Unknown tool: ");
                m.append(tool_name);
                Err(m)
            },
            Some(idx) => {
                let out = (self.handlers[idx].1)(sexpr);
                let ghost gout = out;
                let ghost h = self.handlers@[idx as int].1;
                proof {
                    assert(h.ensures((sexpr,), gout));
                }
                let r: Result<String, String> = match out {
                    Ok(s) => Ok(s),
                    Err(e) => {
                        let mut m = String::from_str("Error executing tool: ");
                        m.append(tool_name);
                        m.append(": ");
                        m.append(e.as_str());
                        Err(m)
                    },
                };
                proof {
                    assert(match gout {
                        Ok(s) => r == Ok::<String, String>(s),
                        Err(e) => r matches Err(m) && m@ == "Error executing tool: "@ + tool_name@
                            + ": "@ + e@,
                    });
                    let looked = spec_lookup(
                        self.spec_handlers(),
                        self.spec_canonical(tool_name@),
                    );
                    assert(looked->Some_0 == h);
                    assert((looked->Some_0).ensures((sexpr,), gout));
                    assert(exists|hr: Result<String, String>|
                        #[trigger] (looked->Some_0).ensures((sexpr,), hr) && match hr {
                            Ok(s) => r == Ok::<String, String>(s),
                            Err(e) => r matches Err(m) && m@ == "Error executing tool: "@
                                + tool_name@ + ": "@ + e@,
                        });
                }
                r
            },
        }
    }
}

/// Progress event information for tracking tool execution.
#[derive(Debug, Clone)]
pub struct ProgressEvent {
    /// The name of the tool that was executed.
    pub tool_name: String,
    /// Additional context about the execution.
    pub context: String,
}

/// The result of routing a tool call, with an optional progress event.
pub struct RouteResult {
    /// The response from the tool handler.
    pub response: String,
    /// An optional progress event for tracking.
    pub progress_event: Option<ProgressEvent>,
}

impl RouteResult {
    /// A result with no progress event.
    pub fn new(response: String) -> (r: Self)
        ensures
            r.response == response,
            r.progress_event is None,
    {
        RouteResult { response, progress_event: None }
    }

    /// A result with a progress event.
    pub fn with_progress(response: String, tool_name: String, context: String) -> (r: Self)
        ensures
            r.response == response,
            r.progress_event matches Some(e) && e.tool_name == tool_name && e.context == context,
    {
        RouteResult { response, progress_event: Some(ProgressEvent { tool_name, context }) }
    }
}

} // verus!
