//! Text of the AppleScript and shell commands that Fennec hands to
//! `osascript`: string literals escaped so that AppleScript reads back exactly
//! the text that was meant.
use vstd::prelude::*;

verus! {

broadcast use vstd::string::group_string_axioms;

/// `String::push`: appends one character at the end.
#[verifier::external_body]
pub(crate) fn push_char(s: &mut String, c: char)
    ensures
        final(s)@ == old(s)@.push(c),
{
    s.push(c);
}

/// How one character is written inside an AppleScript string literal:
/// a backslash and a double quote get a backslash in front of them.
pub open spec fn escape_char(c: char) -> Seq<char> {
    if c == '\\' {
        seq!['\\', '\\']
    } else if c == '"' {
        seq!['\\', '"']
    } else {
        seq![c]
    }
}

/// `s` with every backslash doubled and every double quote preceded by a
/// backslash (`s.replace('\\', "\\\\").replace('"', "\\\"")`).
pub open spec fn escaped(s: Seq<char>) -> Seq<char>
    decreases s.len(),
{
    if s.len() == 0 {
        Seq::empty()
    } else {
        escaped(s.drop_last()) + escape_char(s.last())
    }
}

/// How AppleScript reads the inside of a string literal: a backslash makes the
/// next character stand for itself.
pub open spec fn unescaped(s: Seq<char>) -> Seq<char>
    decreases s.len(),
{
    if s.len() == 0 {
        Seq::empty()
    } else if s[0] == '\\' && s.len() >= 2 {
        seq![s[1]] + unescaped(s.skip(2))
    } else {
        seq![s[0]] + unescaped(s.skip(1))
    }
}

/// Whether `s` holds neither a backslash nor a double quote.
pub open spec fn plain(s: Seq<char>) -> bool {
    forall|i: int| 0 <= i < s.len() ==> s[i] != '\\' && s[i] != '"'
}

proof fn lemma_escaped_prepend(c: char, t: Seq<char>)
    ensures
        escaped(seq![c] + t) == escape_char(c) + escaped(t),
    decreases t.len(),
{
    let s = seq![c] + t;
    if t.len() == 0 {
        assert(s.drop_last() =~= Seq::<char>::empty());
        assert(escaped(Seq::<char>::empty()) == Seq::<char>::empty());
        assert(escape_char(c) + Seq::<char>::empty() =~= escape_char(c));
        assert(Seq::<char>::empty() + escape_char(c) =~= escape_char(c));
    } else {
        lemma_escaped_prepend(c, t.drop_last());
        assert(s.drop_last() =~= seq![c] + t.drop_last());
        assert(s.last() == t.last());
        assert(escape_char(c) + escaped(t.drop_last()) + escape_char(t.last()) =~= escape_char(c)
            + (escaped(t.drop_last()) + escape_char(t.last())));
    }
}

proof fn lemma_escaped_append(a: Seq<char>, b: Seq<char>)
    ensures
        escaped(a + b) == escaped(a) + escaped(b),
    decreases b.len(),
{
    if b.len() == 0 {
        assert(a + b =~= a);
        assert(escaped(a) + escaped(b) =~= escaped(a));
    } else {
        lemma_escaped_append(a, b.drop_last());
        assert((a + b).drop_last() =~= a + b.drop_last());
        assert((a + b).last() == b.last());
        assert(escaped(a) + escaped(b.drop_last()) + escape_char(b.last()) =~= escaped(a) + (
        escaped(b.drop_last()) + escape_char(b.last())));
    }
}

/// Escaping loses nothing: AppleScript reads back exactly the original text.
pub proof fn lemma_unescape_escape(s: Seq<char>)
    ensures
        unescaped(escaped(s)) == s,
    decreases s.len(),
{
    if s.len() > 0 {
        let c = s[0];
        let t = s.drop_first();
        assert(s =~= seq![c] + t);
        lemma_escaped_prepend(c, t);
        lemma_unescape_escape(t);
        let e = escape_char(c) + escaped(t);
        if c == '\\' || c == '"' {
            assert(e[0] == '\\');
            assert(e[1] == c);
            assert(e.skip(2) =~= escaped(t));
        } else {
            assert(e[0] == c);
            assert(e.skip(1) =~= escaped(t));
        }
        assert(seq![c] + t =~= s);
    }
}

/// Text with neither backslash nor double quote is written as it is.
pub proof fn lemma_escape_plain(s: Seq<char>)
    requires
        plain(s),
    ensures
        escaped(s) == s,
    decreases s.len(),
{
    if s.len() > 0 {
        let t = s.drop_last();
        assert(plain(t)) by {
            assert forall|i: int| 0 <= i < t.len() implies t[i] != '\\' && t[i] != '"' by {
                assert(t[i] == s[i]);
            }
        }
        lemma_escape_plain(t);
        assert(s.last() == s[s.len() - 1]);
        assert(t + seq![s.last()] =~= s);
    }
}

/// Every double quote of an escaped text has a backslash right before it, so
/// no double quote of the text can end the AppleScript literal.
pub proof fn lemma_escaped_quotes_guarded(s: Seq<char>)
    ensures
        forall|i: int|
            0 <= i < escaped(s).len() && #[trigger] escaped(s)[i] == '"' ==> i > 0 && escaped(
                s,
            )[i - 1] == '\\',
    decreases s.len(),
{
    if s.len() > 0 {
        let t = s.drop_last();
        lemma_escaped_quotes_guarded(t);
        let e = escaped(s);
        let et = escaped(t);
        let ec = escape_char(s.last());
        assert(e =~= et + ec);
        assert forall|i: int| 0 <= i < e.len() && #[trigger] e[i] == '"' implies i > 0 && e[i - 1]
            == '\\' by {
            if i < et.len() {
                assert(e[i] == et[i]);
                assert(e[i - 1] == et[i - 1]);
            } else {
                assert(e[i] == ec[i - et.len()]);
                if i - et.len() == 0 {
                    assert(ec[0] != '"');
                } else {
                    assert(e[i - 1] == ec[0]);
                }
            }
        }
    }
}

/// The text `s` written as the inside of an AppleScript string literal.
pub fn escape_applescript(s: &str) -> (r: String)
    ensures
        r@ == escaped(s@),
{
    let v = crate::text::chars_of(s);
    let mut out = String::new();
    let n = v.len();
    let mut i: usize = 0;
    while i < n
        invariant
            n == v@.len(),
            v@ == s@,
            i <= n,
            out@ == escaped(s@.take(i as int)),
        decreases n - i,
    {
        let c = v[i];
        proof {
            assert(s@.take(i + 1).drop_last() =~= s@.take(i as int));
            assert(s@.take(i + 1).last() == c);
        }
        if c == '\\' {
            push_char(&mut out, '\\');
            push_char(&mut out, '\\');
        } else if c == '"' {
            push_char(&mut out, '\\');
            push_char(&mut out, '"');
        } else {
            push_char(&mut out, c);
        }
        proof {
            assert(out@ =~= escaped(s@.take(i as int)) + escape_char(c));
        }
        i = i + 1;
    }
    assert(s@.take(n as int) =~= s@);
    out
}

/// The opening of the AppleScript that puts text on the clipboard.
pub const SET_CLIPBOARD_OPEN: &'static str = "set the clipboard to \"";

/// The AppleScript `set the clipboard to "<text>"` for the given text.
pub fn set_clipboard_script(text: &str) -> (r: String)
    ensures
        r@ == SET_CLIPBOARD_OPEN@ + escaped(text@) + "\""@,
{
    let esc = escape_applescript(text);
    String::from_str(SET_CLIPBOARD_OPEN).concat(esc.as_str()).concat("\"")
}

/// The opening of the AppleScript that runs a shell script as administrator.
pub const ADMIN_SHELL_OPEN: &'static str = "do shell script \"";

/// The closing of the AppleScript that runs a shell script as administrator.
pub const ADMIN_SHELL_CLOSE: &'static str = "\" with administrator privileges";

/// The AppleScript that runs `script` in a shell with administrator
/// privileges; the script is escaped into the string literal.
pub fn admin_shell_command(script: &str) -> (r: String)
    ensures
        r@ == ADMIN_SHELL_OPEN@ + escaped(script@) + ADMIN_SHELL_CLOSE@,
{
    let esc = escape_applescript(script);
    String::from_str(ADMIN_SHELL_OPEN).concat(esc.as_str()).concat(ADMIN_SHELL_CLOSE)
}

} // verus!
