//! The builder and author sentants: thin routers in front of a
//! coding-assistant session. A start (or prompt) event starts the session
//! and marks the sentant working; the session's own progress, done and
//! error events are broadcast again, done and error returning the
//! sentant to idle. Events of any other source are not forwarded, so
//! the sentant's own broadcasts do not loop.
//!
//! For the author, the brief is written from a template chosen by the
//! prompt's `kind`; rendering it is the host's work.

use vstd::prelude::*;

use crate::bridge::registry;
use crate::claude_code::CMD_START;
use crate::fnv::{fnv1a_32, str_hash};
use crate::text::{chars_of, push_str, str_eq, string_from_chars};

verus! {

/// What a router asks of the host.
#[derive(Debug, Clone)]
pub enum RouterAction {
    /// Send the session plugin `command` with `data`.
    PluginCall { plugin_id: u32, command: u8, data: Vec<u8> },
    /// Build the author brief from the prompt payload, leave it in the
    /// session's brief slot, then send the plugin its start command.
    BriefAndStart { plugin_id: u32 },
    /// Broadcast the event again under the same hash.
    Rebroadcast { hash: u32, payload: Vec<u8> },
}

/// `e` broadcasts `payload` again under `hash`.
pub open spec fn is_rebroadcast(a: RouterAction, hash: u32, payload: Seq<u8>) -> bool {
    a matches RouterAction::Rebroadcast { hash: h, payload: p } && h == hash && p@ == payload
}

/// The effect of a session event on a router, given its four hashes
/// (start, progress, done, error): the next working flag and the action.
pub open spec fn routed(
    hashes: (u32, u32, u32, u32),
    working: bool,
    hash: u32,
    from_plugin: bool,
    payload: Seq<u8>,
    next_working: bool,
    a: Option<RouterAction>,
) -> bool {
    if hash == hashes.0 {
        next_working
    } else if !from_plugin {
        a is None && next_working == working
    } else if hash == hashes.1 {
        (a matches Some(x) && is_rebroadcast(x, hash, payload)) && next_working == working
    } else if hash == hashes.2 || hash == hashes.3 {
        (a matches Some(x) && is_rebroadcast(x, hash, payload)) && !next_working
    } else {
        a is None && next_working == working
    }
}

/// The builder: starts an assistant build session on `build.start`.
pub struct BuilderSentant {
    working: bool,
    plugin_id: u32,
    h_start: u32,
    h_progress: u32,
    h_done: u32,
    h_error: u32,
}

/// The builder's hashes: `build.start`, `.progress`, `.done`, `.error`.
pub open spec fn build_hashes() -> (u32, u32, u32, u32) {
    (
        str_hash("r2.composer.build.start"),
        str_hash("r2.composer.build.progress"),
        str_hash("r2.composer.build.done"),
        str_hash("r2.composer.build.error"),
    )
}

impl BuilderSentant {
    #[verifier::type_invariant]
    spec fn well_formed(self) -> bool {
        (self.h_start, self.h_progress, self.h_done, self.h_error) == build_hashes()
    }

    /// Is a build running?
    pub closed spec fn is_working(self) -> bool {
        self.working
    }

    /// The session plugin this builder drives.
    pub closed spec fn plugin(self) -> u32 {
        self.plugin_id
    }

    /// An idle builder driving plugin `plugin_id`.
    pub fn new(plugin_id: u32) -> (b: Self)
        ensures
            !b.is_working(),
            b.plugin() == plugin_id,
    {
        let reg = registry();
        let a = reg.hash_of("r2.composer.build.start");
        let p = reg.hash_of("r2.composer.build.progress");
        let d = reg.hash_of("r2.composer.build.done");
        let e = reg.hash_of("r2.composer.build.error");
        BuilderSentant {
            working: false,
            plugin_id,
            h_start: a.unwrap(),
            h_progress: p.unwrap(),
            h_done: d.unwrap(),
            h_error: e.unwrap(),
        }
    }

    /// Handles an event; a start passes its payload to the plugin.
    pub fn handle_event(&mut self, hash: u32, from_plugin: bool, payload: &[u8]) -> (a: Option<RouterAction>)
        ensures
            routed(build_hashes(), old(self).is_working(), hash, from_plugin, payload@, final(self).is_working(), a),
            hash == build_hashes().0 ==> (a matches Some(RouterAction::PluginCall { plugin_id: p, command: c, data: d })
                && p == old(self).plugin() && c == CMD_START && d@ == payload@),
            final(self).plugin() == old(self).plugin(),
    {
        proof {
            use_type_invariant(&*self);
        }
        if hash == self.h_start {
            self.working = true;
            return Some(
                RouterAction::PluginCall {
                    plugin_id: self.plugin_id,
                    command: CMD_START,
                    data: vstd::slice::slice_to_vec(payload),
                },
            );
        }
        if !from_plugin {
            return None;
        }
        if hash == self.h_progress {
            Some(RouterAction::Rebroadcast { hash, payload: vstd::slice::slice_to_vec(payload) })
        } else if hash == self.h_done || hash == self.h_error {
            self.working = false;
            Some(RouterAction::Rebroadcast { hash, payload: vstd::slice::slice_to_vec(payload) })
        } else {
            None
        }
    }

    /// The state id: `0` idle, `1` working.
    pub fn state(&self) -> (s: u32)
        ensures
            s == if self.is_working() {
                1u32
            } else {
                0u32
            },
    {
        if self.working {
            1
        } else {
            0
        }
    }

    /// The class hash naming this sentant.
    pub fn class_hash(&self) -> (h: u32)
        ensures
            h == str_hash("ai.reality2.r2-composer.builder"),
    {
        fnv1a_32("ai.reality2.r2-composer.builder")
    }

    /// The sentant's name.
    pub fn name(&self) -> (s: &'static str)
        ensures
            s@ == "Builder"@,
    {
        "Builder"
    }

    /// The events this sentant consumes.
    pub fn subscriptions(&self) -> (v: Vec<u32>)
        ensures
            v@ == seq![build_hashes().0, build_hashes().1, build_hashes().2, build_hashes().3],
    {
        proof {
            use_type_invariant(self);
        }
        let mut v: Vec<u32> = Vec::new();
        v.push(self.h_start);
        v.push(self.h_progress);
        v.push(self.h_done);
        v.push(self.h_error);
        v
    }
}

/// The author: starts an assistant authoring session on
/// `author.prompt`.
pub struct AuthorSentant {
    working: bool,
    plugin_id: u32,
    h_prompt: u32,
    h_reply: u32,
    h_done: u32,
    h_error: u32,
}

/// The author's hashes: `author.prompt`, `.reply`, `.done`, `.error`.
pub open spec fn author_hashes() -> (u32, u32, u32, u32) {
    (
        str_hash("r2.composer.author.prompt"),
        str_hash("r2.composer.author.reply"),
        str_hash("r2.composer.author.done"),
        str_hash("r2.composer.author.error"),
    )
}

impl AuthorSentant {
    #[verifier::type_invariant]
    spec fn well_formed(self) -> bool {
        (self.h_prompt, self.h_reply, self.h_done, self.h_error) == author_hashes()
    }

    /// Is a session running?
    pub closed spec fn is_working(self) -> bool {
        self.working
    }

    /// The session plugin this author drives.
    pub closed spec fn plugin(self) -> u32 {
        self.plugin_id
    }

    /// An idle author driving plugin `plugin_id`.
    pub fn new(plugin_id: u32) -> (s: Self)
        ensures
            !s.is_working(),
            s.plugin() == plugin_id,
    {
        let reg = registry();
        let a = reg.hash_of("r2.composer.author.prompt");
        let p = reg.hash_of("r2.composer.author.reply");
        let d = reg.hash_of("r2.composer.author.done");
        let e = reg.hash_of("r2.composer.author.error");
        AuthorSentant {
            working: false,
            plugin_id,
            h_prompt: a.unwrap(),
            h_reply: p.unwrap(),
            h_done: d.unwrap(),
            h_error: e.unwrap(),
        }
    }

    /// Handles an event; a prompt asks the host to write the brief and
    /// start the session.
    pub fn handle_event(&mut self, hash: u32, from_plugin: bool, payload: &[u8]) -> (a: Option<RouterAction>)
        ensures
            routed(author_hashes(), old(self).is_working(), hash, from_plugin, payload@, final(self).is_working(), a),
            hash == author_hashes().0 ==> (a matches Some(RouterAction::BriefAndStart { plugin_id: p }) && p == old(
                self,
            ).plugin()),
            final(self).plugin() == old(self).plugin(),
    {
        proof {
            use_type_invariant(&*self);
        }
        if hash == self.h_prompt {
            self.working = true;
            return Some(RouterAction::BriefAndStart { plugin_id: self.plugin_id });
        }
        if !from_plugin {
            return None;
        }
        if hash == self.h_reply {
            Some(RouterAction::Rebroadcast { hash, payload: vstd::slice::slice_to_vec(payload) })
        } else if hash == self.h_done || hash == self.h_error {
            self.working = false;
            Some(RouterAction::Rebroadcast { hash, payload: vstd::slice::slice_to_vec(payload) })
        } else {
            None
        }
    }

    /// The state id: `0` idle, `1` working.
    pub fn state(&self) -> (s: u32)
        ensures
            s == if self.is_working() {
                1u32
            } else {
                0u32
            },
    {
        if self.working {
            1
        } else {
            0
        }
    }

    /// The class hash naming this sentant.
    pub fn class_hash(&self) -> (h: u32)
        ensures
            h == str_hash("ai.reality2.r2-composer.author"),
    {
        fnv1a_32("ai.reality2.r2-composer.author")
    }

    /// The sentant's name.
    pub fn name(&self) -> (s: &'static str)
        ensures
            s@ == "Author"@,
    {
        "Author"
    }

    /// The events this sentant consumes.
    pub fn subscriptions(&self) -> (v: Vec<u32>)
        ensures
            v@ == seq![author_hashes().0, author_hashes().1, author_hashes().2, author_hashes().3],
    {
        proof {
            use_type_invariant(self);
        }
        let mut v: Vec<u32> = Vec::new();
        v.push(self.h_prompt);
        v.push(self.h_reply);
        v.push(self.h_done);
        v.push(self.h_error);
        v
    }
}

/// The brief template for a prompt's `kind` (absent: `chat`; unknown:
/// the chat template too).
pub open spec fn template_for(kind: Seq<char>) -> Seq<char> {
    if kind == "apiary"@ {
        "author-apiary.md.tera"@
    } else if kind == "board"@ {
        "author-board.md.tera"@
    } else if kind == "ensemble"@ {
        "author-ensemble.md.tera"@
    } else if kind == "plugin"@ {
        "author-plugin.md.tera"@
    } else if kind == "sentant"@ {
        "author-sentant.md.tera"@
    } else if kind == "flash"@ {
        "author-flash.md.tera"@
    } else if kind == "provision"@ {
        "author-provision.md.tera"@
    } else {
        "author-chat.md.tera"@
    }
}

/// The template a brief of this kind is rendered from.
pub fn template_name(kind: &str) -> (t: &'static str)
    ensures
        t@ == template_for(kind@),
{
    if str_eq(kind, "apiary") {
        "author-apiary.md.tera"
    } else if str_eq(kind, "board") {
        "author-board.md.tera"
    } else if str_eq(kind, "ensemble") {
        "author-ensemble.md.tera"
    } else if str_eq(kind, "plugin") {
        "author-plugin.md.tera"
    } else if str_eq(kind, "sentant") {
        "author-sentant.md.tera"
    } else if str_eq(kind, "flash") {
        "author-flash.md.tera"
    } else if str_eq(kind, "provision") {
        "author-provision.md.tera"
    } else {
        "author-chat.md.tera"
    }
}

/// The brief used when a template cannot be rendered, for the assistant
/// named `assistant`.
pub open spec fn fallback_brief_spec(assistant: Seq<char>, message: Seq<char>) -> Seq<char> {
    "You are "@ + assistant + ", assisting an operator using r2-composer.\nOperator says:\n\n"@ + message + "\n"@
}

/// The minimal brief: who the assistant is, and the operator's message.
pub fn fallback_brief(assistant: &str, message: &str) -> (b: String)
    ensures
        b@ == fallback_brief_spec(assistant@, message@),
{
    let mut v: Vec<char> = chars_of("You are ");
    push_str(&mut v, assistant);
    push_str(&mut v, ", assisting an operator using r2-composer.\nOperator says:\n\n");
    push_str(&mut v, message);
    push_str(&mut v, "\n");
    string_from_chars(&v)
}

/// Each known prompt kind has its own template, named after it: for a
/// kind among apiary, board, ensemble, plugin, sentant, flash and
/// provision the template is `author-<kind>.md.tera`, and any other kind
/// gets the chat template. Different known kinds never share a template.
pub proof fn law_template_named_after_kind(kind: Seq<char>, other: Seq<char>)
    ensures
        (kind == "apiary"@ || kind == "board"@ || kind == "ensemble"@ || kind == "plugin"@ || kind == "sentant"@
            || kind == "flash"@ || kind == "provision"@) ==> template_for(kind) == "author-"@ + kind + ".md.tera"@,
        !(kind == "apiary"@ || kind == "board"@ || kind == "ensemble"@ || kind == "plugin"@ || kind == "sentant"@
            || kind == "flash"@ || kind == "provision"@) ==> template_for(kind) == "author-chat.md.tera"@,
        (kind == "apiary"@ || kind == "board"@ || kind == "ensemble"@ || kind == "plugin"@ || kind == "sentant"@
            || kind == "flash"@ || kind == "provision"@) && template_for(kind) == template_for(other) ==> kind == other,
{
    reveal_strlit("apiary");
    reveal_strlit("board");
    reveal_strlit("ensemble");
    reveal_strlit("plugin");
    reveal_strlit("sentant");
    reveal_strlit("flash");
    reveal_strlit("provision");
    reveal_strlit("chat");
    reveal_strlit("author-apiary.md.tera");
    reveal_strlit("author-board.md.tera");
    reveal_strlit("author-ensemble.md.tera");
    reveal_strlit("author-plugin.md.tera");
    reveal_strlit("author-sentant.md.tera");
    reveal_strlit("author-flash.md.tera");
    reveal_strlit("author-provision.md.tera");
    reveal_strlit("author-chat.md.tera");
    reveal_strlit("author-");
    reveal_strlit(".md.tera");
    assert("author-"@ + "apiary"@ + ".md.tera"@ =~= "author-apiary.md.tera"@);
    assert("author-"@ + "board"@ + ".md.tera"@ =~= "author-board.md.tera"@);
    assert("author-"@ + "ensemble"@ + ".md.tera"@ =~= "author-ensemble.md.tera"@);
    assert("author-"@ + "plugin"@ + ".md.tera"@ =~= "author-plugin.md.tera"@);
    assert("author-"@ + "sentant"@ + ".md.tera"@ =~= "author-sentant.md.tera"@);
    assert("author-"@ + "flash"@ + ".md.tera"@ =~= "author-flash.md.tera"@);
    assert("author-"@ + "provision"@ + ".md.tera"@ =~= "author-provision.md.tera"@);
    assert("author-apiary.md.tera"@[7] != "author-plugin.md.tera"@[7]);
    assert("author-board.md.tera"@[7] != "author-flash.md.tera"@[7]);
    assert("author-apiary.md.tera"@ != "author-plugin.md.tera"@);
    assert("author-board.md.tera"@ != "author-flash.md.tera"@);
    assert("apiary"@[0] != "plugin"@[0] && "board"@[0] != "flash"@[0]);
}

} // verus!
