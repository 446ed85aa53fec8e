//! Whether the terminal can show images: the `graphics` setting, and for
//! `auto` what the terminal's environment says about it.

use vstd::prelude::*;

use crate::config::Graphics;
use crate::text::{chars_eq, eq_str, starts_with_str, to_chars};

verus! {

/// The environment variables that identify the terminal (empty when
/// unset).
pub struct TermEnv {
    pub term: String,
    pub tmux: String,
    pub term_program: String,
    pub kitty_window_id: String,
    pub ghostty_resources_dir: String,
}

/// ASCII letters lowercased, anything else unchanged.
pub open spec fn ascii_lower(c: char) -> char {
    if 'A' <= c <= 'Z' {
        ((c as u32) + 32) as char
    } else {
        c
    }
}

/// Equal up to ASCII case (std `eq_ignore_ascii_case`).
pub open spec fn eq_ascii_ci(a: Seq<char>, b: Seq<char>) -> bool {
    a.len() == b.len() && forall|i: int| 0 <= i < a.len() ==> ascii_lower(#[trigger] a[i]) == ascii_lower(b[i])
}

pub open spec fn starts_with(s: Seq<char>, p: Seq<char>) -> bool {
    s.len() >= p.len() && s.take(p.len() as int) == p
}

/// Terminals known to implement the kitty graphics protocol. Multiplexers
/// swallow the escapes, so they count as unsupported unless forced.
pub open spec fn spec_detect(mode: Graphics, term: Seq<char>, tmux: Seq<char>, term_program: Seq<char>, kitty: Seq<char>, ghostty: Seq<char>) -> bool {
    match mode {
        Graphics::Off => false,
        Graphics::Kitty => true,
        Graphics::Auto => if tmux.len() > 0 || starts_with(term, "screen"@) || starts_with(term, "tmux"@) {
            false
        } else {
            term == "xterm-kitty"@ || term == "xterm-ghostty"@ || eq_ascii_ci(term_program, "ghostty"@)
                || kitty.len() > 0 || ghostty.len() > 0
        },
    }
}

fn lower(c: char) -> (r: char)
    ensures
        r == ascii_lower(c),
{
    if 'A' <= c && c <= 'Z' {
        ((c as u8) + 32) as char
    } else {
        c
    }
}

fn eq_ignore_ascii_case(a: &Vec<char>, lit: &str) -> (r: bool)
    ensures
        r == eq_ascii_ci(a@, lit@),
{
    let b = to_chars(lit);
    if a.len() != b.len() {
        return false;
    }
    let mut i: usize = 0;
    while i < a.len()
        invariant
            a.len() == b.len(),
            b@ == lit@,
            i <= a.len(),
            forall|j: int| 0 <= j < i ==> ascii_lower(#[trigger] a@[j]) == ascii_lower(b@[j]),
        decreases a.len() - i,
    {
        if lower(a[i]) != lower(b[i]) {
            return false;
        }
        i = i + 1;
    }
    true
}

/// Whether to draw enlarged text as images.
pub fn detect_with(mode: Graphics, env: &TermEnv) -> (r: bool)
    ensures
        r == spec_detect(
            mode,
            env.term@,
            env.tmux@,
            env.term_program@,
            env.kitty_window_id@,
            env.ghostty_resources_dir@,
        ),
{
    match mode {
        Graphics::Off => false,
        Graphics::Kitty => true,
        Graphics::Auto => {
            let term = to_chars(env.term.as_str());
            let tmux = to_chars(env.tmux.as_str());
            if tmux.len() > 0 || starts_with_str(&term, "screen") || starts_with_str(&term, "tmux") {
                return false;
            }
            let program = to_chars(env.term_program.as_str());
            let kitty = to_chars(env.kitty_window_id.as_str());
            let ghostty = to_chars(env.ghostty_resources_dir.as_str());
            eq_str(&term, "xterm-kitty") || eq_str(&term, "xterm-ghostty") || eq_ignore_ascii_case(
                &program,
                "ghostty",
            ) || kitty.len() > 0 || ghostty.len() > 0
        },
    }
}

} // verus!
