//! Small text utilities: decimal rendering, joining fragments, and looking at
//! the last character of a fragment.

use vstd::prelude::*;

verus! {

/// The character that writes the digit `d`.
pub open spec fn digit_char(d: nat) -> char
    recommends
        d < 10,
{
    if d == 0 {
        '0'
    } else if d == 1 {
        '1'
    } else if d == 2 {
        '2'
    } else if d == 3 {
        '3'
    } else if d == 4 {
        '4'
    } else if d == 5 {
        '5'
    } else if d == 6 {
        '6'
    } else if d == 7 {
        '7'
    } else if d == 8 {
        '8'
    } else {
        '9'
    }
}

/// `n` written in base ten, without sign or leading zeros.
pub open spec fn decimal(n: nat) -> Seq<char>
    decreases n,
{
    if n < 10 {
        seq![digit_char(n)]
    } else {
        decimal(n / 10).push(digit_char(n % 10))
    }
}

/// All of `parts`, one after the other.
pub open spec fn concat_all(parts: Seq<Seq<char>>) -> Seq<char>
    decreases parts.len(),
{
    if parts.len() == 0 {
        Seq::empty()
    } else {
        concat_all(parts.drop_last()) + parts.last()
    }
}

/// The views of a sequence of strings.
pub open spec fn views_of(parts: Seq<String>) -> Seq<Seq<char>> {
    parts.map_values(|part: String| part@)
}

/// The view of a string that may be absent.
pub open spec fn text_view(text: Option<String>) -> Option<Seq<char>> {
    match text {
        Some(text) => Some(text@),
        None => None,
    }
}

/// Joining after one more part is joining before it, and then that part.
pub proof fn lemma_concat_all_push(parts: Seq<Seq<char>>, part: Seq<char>)
    ensures
        concat_all(parts.push(part)) == concat_all(parts) + part,
{
    assert(parts.push(part).drop_last() == parts);
}

fn digit_str(d: u8) -> (text: &'static str)
    requires
        d < 10,
    ensures
        text@ == seq![digit_char(d as nat)],
{
    proof {
        reveal_strlit("0123456789");
    }
    let digits = "0123456789";
    let text = digits.substring_ascii(d as usize, d as usize + 1);
    assert(text@ =~= seq![digit_char(d as nat)]);
    text
}

/// Appends `n` in base ten to `out`.
pub fn push_decimal(out: &mut String, n: u128)
    ensures
        final(out)@ == old(out)@ + decimal(n as nat),
    decreases n,
{
    if n >= 10 {
        push_decimal(out, n / 10);
    }
    out.append(digit_str((n % 10) as u8));
    assert(out@ =~= old(out)@ + decimal(n as nat));
}

/// `n` in base ten.
pub fn to_decimal(n: u128) -> (text: String)
    ensures
        text@ == decimal(n as nat),
{
    let mut text = String::new();
    push_decimal(&mut text, n);
    assert(text@ =~= decimal(n as nat));
    text
}

/// Joins the fragments in order, with nothing between them.
pub fn join(parts: &Vec<String>) -> (text: String)
    ensures
        text@ == concat_all(views_of(parts@)),
{
    let mut text = String::new();
    let mut i: usize = 0;
    while i < parts.len()
        invariant
            i <= parts.len(),
            text@ == concat_all(views_of(parts@).take(i as int)),
        decreases parts.len() - i,
    {
        text.append(parts[i].as_str());
        proof {
            let views = views_of(parts@);
            assert(views.take(i as int + 1) == views.take(i as int).push(views[i as int]));
            lemma_concat_all_push(views.take(i as int), views[i as int]);
        }
        i += 1;
    }
    assert(views_of(parts@).take(i as int) == views_of(parts@));
    text
}

/// The last character of `text`, if it has one.
pub fn last_char(text: &str) -> (last: Option<char>)
    ensures
        text@.len() == 0 ==> last is None,
        text@.len() > 0 ==> last == Some(text@.last()),
{
    let len = text.unicode_len();
    if len == 0 {
        None
    } else {
        Some(text.get_char(len - 1))
    }
}

} // verus!
