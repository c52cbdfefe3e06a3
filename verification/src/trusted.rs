//! The calls into other crates and into std that vstd does not specify, each behind one item
//! whose contract is believed rather than proved. The doc comment of each item says what it
//! claims.
use vstd::prelude::*;


verus! {

// ---------------------------------------------------------------------------------------------
// brace-expand
// ---------------------------------------------------------------------------------------------

/// The kind of a token of `brace_expand::brace_expand`'s input: `{`, `}`, `,` or a literal
/// character (a backslash makes the next character literal; a trailing backslash ends the input).
pub enum BraceToken {
    Open,
    Close,
    Comma,
    Lit,
}

/// The tokens that `brace_expand` reads from `s`.
pub open spec fn brace_tokens(s: Seq<char>) -> Seq<BraceToken>
    decreases s.len(),
{
    if s.len() == 0 {
        Seq::empty()
    } else if s[0] == '\\' {
        if s.len() == 1 {
            Seq::empty()
        } else {
            seq![BraceToken::Lit] + brace_tokens(s.skip(2))
        }
    } else if s[0] == '{' {
        seq![BraceToken::Open] + brace_tokens(s.drop_first())
    } else if s[0] == '}' {
        seq![BraceToken::Close] + brace_tokens(s.drop_first())
    } else if s[0] == ',' {
        seq![BraceToken::Comma] + brace_tokens(s.drop_first())
    } else {
        seq![BraceToken::Lit] + brace_tokens(s.drop_first())
    }
}

/// The nesting level after a run of tokens (each `{` adds one, each `}` takes one away), and
/// whether a `,` occurred at level one since the level last rose from zero to one.
pub open spec fn brace_scan(t: Seq<BraceToken>) -> (int, bool)
    decreases t.len(),
{
    if t.len() == 0 {
        (0, false)
    } else {
        let (level, comma) = brace_scan(t.drop_last());
        match t.last() {
            BraceToken::Open => if level == 0 {
                (1, false)
            } else {
                (level + 1, comma)
            },
            BraceToken::Close => (level - 1, comma),
            BraceToken::Comma => (level, comma || level == 1),
            BraceToken::Lit => (level, comma),
        }
    }
}

/// `brace_expand(s)` returns: no list is left open at the end of the input with a `,` inside it
/// at its own level. On such an input `brace_expand` re-queues ever longer strings and never
/// finishes (each pass prepends an item to a copy of the whole unclosed input).
pub open spec fn brace_expand_returns(s: Seq<char>) -> bool {
    let (level, comma) = brace_scan(brace_tokens(s));
    !(level >= 1 && comma)
}

/// `s` holds none of the characters that `brace_expand` treats specially.
pub open spec fn no_brace_syntax(s: Seq<char>) -> bool {
    forall|i: int|
        0 <= i < s.len() ==> #[trigger] s[i] != '{' && s[i] != '}' && s[i] != ',' && s[i] != '\\'
}

/// What `brace_expand::brace_expand` returns for `s`.
pub uninterp spec fn brace_expansion(s: Seq<char>) -> Seq<Seq<char>>;

/// Calls `brace_expand::brace_expand`, which expands `{a,b}` lists (nested, several per string)
/// into the cross product of strings, in Bash order. Claimed: the result is
/// `brace_expansion(s@)`; a string without braces, commas and backslashes expands to itself
/// alone (its tokens are all literal, so the only pass completes it unchanged). Required: the
/// call returns (`brace_expand_returns`).
#[verifier::external_body]
pub(crate) fn brace_expand_call(s: &str) -> (r: Vec<String>)
    requires
        brace_expand_returns(s@),
    ensures
        r@.map_values(|x: String| x@) == brace_expansion(s@),
        no_brace_syntax(s@) ==> r@.map_values(|x: String| x@) == seq![s@],
{
    brace_expand::brace_expand(s)
}

/// Reads the tokens of `s` as `brace_expand` does.
fn brace_tokens_exec(s: &Vec<char>) -> (t: Vec<BraceToken>)
    ensures
        t@ == brace_tokens(s@),
{
    let mut t: Vec<BraceToken> = Vec::new();
    let mut i: usize = 0;
    assert(s@.skip(0) =~= s@);
    assert(t@ + brace_tokens(s@.skip(0)) =~= brace_tokens(s@));
    while i < s.len()
        invariant
            i <= s@.len(),
            t@ + brace_tokens(s@.skip(i as int)) == brace_tokens(s@),
        decreases s@.len() - i,
    {
        let ghost rest = s@.skip(i as int);
        let ghost t0 = t@;
        let c = s[i];
        if c == '\\' {
            if i + 1 == s.len() {
                assert(brace_tokens(rest) =~= Seq::<BraceToken>::empty());
                assert(t@ =~= brace_tokens(s@));
                return t;
            }
            assert(rest[0] == c && rest.len() >= 2);
            assert(brace_tokens(rest) == seq![BraceToken::Lit] + brace_tokens(rest.skip(2)));
            t.push(BraceToken::Lit);
            assert(rest.skip(2) =~= s@.skip(i + 2));
            assert(t@ + brace_tokens(s@.skip(i + 2)) =~= t0 + brace_tokens(rest));
            i += 2;
        } else {
            if c == '{' {
                t.push(BraceToken::Open);
            } else if c == '}' {
                t.push(BraceToken::Close);
            } else if c == ',' {
                t.push(BraceToken::Comma);
            } else {
                t.push(BraceToken::Lit);
            }
            assert(rest[0] == c);
            assert(rest.drop_first() =~= s@.skip(i + 1));
            assert(brace_tokens(rest) == seq![t@.last()] + brace_tokens(rest.drop_first()));
            assert(t@ + brace_tokens(s@.skip(i + 1)) =~= t0 + brace_tokens(rest));
            i += 1;
        }
    }
    assert(s@.skip(i as int) =~= Seq::<char>::empty());
    assert(t@ =~= brace_tokens(s@));
    t
}

/// Whether `brace_expand` returns on `s`.
pub fn brace_expand_returns_exec(s: &Vec<char>) -> (b: bool)
    ensures
        b == brace_expand_returns(s@),
{
    let t = brace_tokens_exec(s);
    let mut level: i128 = 0;
    let mut comma = false;
    let mut i: usize = 0;
    assert(t@.take(0) =~= Seq::<BraceToken>::empty());
    while i < t.len()
        invariant
            i <= t@.len(),
            -(i as int) <= level <= i,
            brace_scan(t@.take(i as int)) == (level as int, comma),
        decreases t@.len() - i,
    {
        assert(t@.take(i + 1).drop_last() =~= t@.take(i as int));
        match t[i] {
            BraceToken::Open => {
                if level == 0 {
                    level = 1;
                    comma = false;
                } else {
                    level = level + 1;
                }
            },
            BraceToken::Close => {
                level = level - 1;
            },
            BraceToken::Comma => {
                comma = comma || level == 1;
            },
            BraceToken::Lit => {},
        }
        i += 1;
    }
    assert(t@.take(t@.len() as int) =~= t@);
    !(level >= 1 && comma)
}

// ---------------------------------------------------------------------------------------------
// strip-ansi-escapes
// ---------------------------------------------------------------------------------------------

/// What `strip_ansi_escapes::strip` returns for `data`.
pub uninterp spec fn ansi_stripped(data: Seq<u8>) -> Seq<u8>;

/// Calls `strip_ansi_escapes::strip`, which feeds the bytes through a VT parser and keeps the
/// printable text and line controls. Claimed: the result is `ansi_stripped(data@)`; it always
/// returns (writing into a `Vec` cannot fail).
#[verifier::external_body]
pub(crate) fn strip_ansi(data: &[u8]) -> (r: Vec<u8>)
    ensures
        r@ == ansi_stripped(data@),
{
    strip_ansi_escapes::strip(data)
}

// ---------------------------------------------------------------------------------------------
// std: lossy UTF-8 decoding
// ---------------------------------------------------------------------------------------------

/// What `String::from_utf8_lossy` gives for `bytes`.
pub uninterp spec fn utf8_lossy(bytes: Seq<u8>) -> Seq<char>;

/// Calls `String::from_utf8_lossy`. Claimed: the result is `utf8_lossy(bytes@)`, and it is the
/// decoded text itself where the bytes are valid UTF-8 (as its documentation states); invalid
/// sequences become U+FFFD, which is not stated here.
#[verifier::external_body]
pub(crate) fn utf8_lossy_call(bytes: &[u8]) -> (r: String)
    ensures
        r@ == utf8_lossy(bytes@),
        vstd::utf8::valid_utf8(bytes@) ==> r@ == vstd::utf8::decode_utf8(bytes@),
{
    String::from_utf8_lossy(bytes).into_owned()
}

// ---------------------------------------------------------------------------------------------
// serde_json
// ---------------------------------------------------------------------------------------------

/// What parsing `body` as JSON and looking up `pointer` in it gives: `None` where `body` is not
/// JSON, `Some(None)` where nothing is at `pointer` or it is not a string, `Some(Some(text))`
/// where the string `text` is there.
pub uninterp spec fn json_string_at(body: Seq<u8>, pointer: Seq<char>) -> Option<Option<Seq<char>>>;

/// The view of a lookup result.
pub open spec fn lookup_view(r: Option<Option<String>>) -> Option<Option<Seq<char>>> {
    match r {
        None => None,
        Some(None) => Some(None),
        Some(Some(s)) => Some(Some(s@)),
    }
}

/// Calls `serde_json::from_slice::<serde_json::Value>` on `body` and, where that succeeds,
/// `Value::pointer` with `pointer`, keeping the value only where it is a JSON string. Claimed:
/// the result is `json_string_at(body@, pointer@)`; the calls return on every input (a parse
/// failure is an `Err`, which becomes `None`).
#[verifier::external_body]
pub(crate) fn json_string_at_call(body: &[u8], pointer: &str) -> (r: Option<Option<String>>)
    ensures
        lookup_view(r) == json_string_at(body@, pointer@),
{
    let value: serde_json::Value = match serde_json::from_slice(body) {
        Ok(v) => v,
        Err(_) => return None,
    };
    match value.pointer(pointer) {
        Some(serde_json::Value::String(s)) => Some(Some(s.clone())),
        _ => Some(None),
    }
}

} // verus!
