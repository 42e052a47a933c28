use vstd::prelude::*;
use vstd::string::StringExecFns;

verus! {

/// Whether a character is uppercase, as `char::is_uppercase` decides it.
pub uninterp spec fn is_upper(c: char) -> bool;

/// The lowercase form of a character, as `char::to_lowercase` yields it.
pub uninterp spec fn lower_of(c: char) -> Seq<char>;

/// Relies on `char::is_uppercase`: whether the character has the Unicode
/// `Uppercase` property, which depends on the character alone.
#[verifier::external_body]
fn char_is_uppercase(c: char) -> (r: bool)
    ensures
        r == is_upper(c),
{
    c.is_uppercase()
}

/// Relies on `char::to_lowercase`: the characters of the Unicode lowercase
/// mapping, which depend on the character alone, collected into a `String`.
#[verifier::external_body]
fn char_to_lowercase(c: char) -> (r: String)
    ensures
        r@ == lower_of(c),
{
    c.to_lowercase().collect()
}

/// Relies on `String::push`: appends one character.
#[verifier::external_body]
fn push_char(s: &mut String, c: char)
    ensures
        final(s)@ == old(s)@.push(c),
{
    s.push(c)
}

/// One character's contribution to a snake_case name built so far: an uppercase
/// character becomes its lowercase form, after an underscore unless it comes
/// first; any other character is kept.
pub open spec fn snake_step(out: Seq<char>, c: char, upper: bool, lowered: Seq<char>) -> Seq<char> {
    if upper {
        if out.len() > 0 {
            out.push('_') + lowered
        } else {
            lowered
        }
    } else {
        out.push(c)
    }
}

/// The snake_case form of a CamelCase name.
pub open spec fn snake_of(s: Seq<char>) -> Seq<char>
    decreases s.len(),
{
    if s.len() == 0 {
        Seq::empty()
    } else {
        snake_step(snake_of(s.drop_last()), s.last(), is_upper(s.last()), lower_of(s.last()))
    }
}

/// Appends one character's contribution to `out`, given whether it is uppercase
/// and its lowercase form.
pub fn push_snake_char(out: &mut String, c: char, upper: bool, lowered: &str)
    ensures
        final(out)@ == snake_step(old(out)@, c, upper, lowered@),
{
    if upper {
        if out.unicode_len() > 0 {
            push_char(out, '_');
        }
        out.append(lowered);
    } else {
        push_char(out, c);
    }
}

/// Converts a CamelCase name to snake_case (`EatAction` becomes `eat_action`).
pub fn to_snake_case(s: &str) -> (r: String)
    ensures
        r@ == snake_of(s@),
{
    let n = s.unicode_len();
    let mut out = String::new();
    let mut i: usize = 0;
    while i < n
        invariant
            n == s@.len(),
            i <= n,
            out@ == snake_of(s@.take(i as int)),
        decreases n - i,
    {
        let c = s.get_char(i);
        let upper = char_is_uppercase(c);
        let lowered = char_to_lowercase(c);
        push_snake_char(&mut out, c, upper, lowered.as_str());
        proof {
            let t = s@.take(i as int + 1);
            assert(t.drop_last() =~= s@.take(i as int));
        }
        i = i + 1;
    }
    assert(s@.take(n as int) =~= s@);
    out
}

} // verus!
