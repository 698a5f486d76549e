//! Text that the plugin prints or writes around the script: the console line
//! for a script's `print`, the path of the working copy of a script, and the
//! script with the prelude in front of it.
use colored::Colorize;
use vstd::prelude::*;
use crate::text::{occurs_at, push_char, push_str, replace_all, replace_all_exec};

verus! {

/// The escape sequence that switches the terminal colour to yellow.
pub open spec fn yellow_on() -> Seq<char> {
    seq!['\x1B', '[', '3', '3', 'm']
}

/// The escape sequence that resets the terminal colour.
pub open spec fn colour_reset() -> Seq<char> {
    seq!['\x1B', '[', '0', 'm']
}

/// The ways in which the crate `colored` prints `s` in yellow: as it is,
/// when colouring is switched off; between the yellow and reset sequences,
/// when it is on; or followed by the reset sequence alone, when colouring is
/// switched off by another thread while the text is being printed.
pub open spec fn yellow_forms(s: Seq<char>, r: Seq<char>) -> bool {
    ||| r == s
    ||| r == yellow_on() + s + colour_reset()
    ||| r == s + colour_reset()
}

/// `s` printed in yellow.
///
/// Wraps `colored::Colorize::yellow` followed by `to_string`. In colored 2.2
/// the `Display` of a `ColoredString` prints the input unchanged when
/// colouring is off (which the environment variables `CLICOLOR`,
/// `CLICOLOR_FORCE` and `NO_COLOR`, or an override, decide), and otherwise
/// the style sequence `ESC[33m`, the input and `ESC[0m`; it rewrites reset
/// sequences inside the input, which `requires` excludes. It asks whether to
/// colour once before printing and again for the style sequence, so a switch
/// of the setting by another thread in between gives the input followed by
/// `ESC[0m` alone. Which of these forms comes back is not stated.
#[verifier::external_body]
fn yellow_text(s: &str) -> (r: String)
    requires
        forall|i: int| !occurs_at(s@, colour_reset(), i),
    ensures
        yellow_forms(s@, r@),
{
    s.yellow().to_string()
}

/// The console line for a message printed by the script: a yellow `[JS]`
/// tag, a space, and the message.
pub fn js_print_line(msg: &str) -> (r: String)
    ensures
        exists|tag: Seq<char>| yellow_forms("[JS]"@, tag) && r@ == tag + seq![' '] + msg@,
{
    let label = "[JS]";
    proof {
        reveal_strlit("[JS]");
        assert forall|i: int| !occurs_at(label@, colour_reset(), i) by {
            if occurs_at(label@, colour_reset(), i) {
                assert(label@.subrange(i, i + 4)[0] == colour_reset()[0]);
            }
        }
    }
    let mut line = yellow_text(label);
    let ghost tag = line@;
    push_char(&mut line, ' ');
    push_str(&mut line, msg);
    assert(line@ =~= tag + seq![' '] + msg@);
    line
}

/// The path of the working copy of a script: every `.js` in `path` becomes
/// `.copy.js`.
pub fn copy_path_for(path: &str) -> (r: String)
    ensures
        r@ == replace_all(path@, ".js"@, ".copy.js"@),
{
    proof {
        reveal_strlit(".js");
    }
    replace_all_exec(path, ".js", ".copy.js")
}

/// The script to run: the prelude followed by the script's own text.
pub fn compose_script(prelude: &str, contents: &str) -> (r: String)
    ensures
        r@ == prelude@ + contents@,
{
    let mut r = String::new();
    push_str(&mut r, prelude);
    push_str(&mut r, contents);
    assert(r@ =~= prelude@ + contents@);
    r
}

} // verus!
