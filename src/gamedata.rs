//! Helpers for the static item metadata: icon paths and item-kind names.
use vstd::prelude::*;

verus! {

/// The character of a decimal digit.
pub open spec fn digit_char(d: nat) -> char {
    if d == 0 { '0' }
    else if d == 1 { '1' }
    else if d == 2 { '2' }
    else if d == 3 { '3' }
    else if d == 4 { '4' }
    else if d == 5 { '5' }
    else if d == 6 { '6' }
    else if d == 7 { '7' }
    else if d == 8 { '8' }
    else { '9' }
}

/// The decimal representation of `n`, without leading zeros.
pub open spec fn decimal(n: nat) -> Seq<char>
    decreases n,
{
    if n < 10 {
        seq![digit_char(n)]
    } else {
        decimal(n / 10).push(digit_char(n % 10))
    }
}

/// At most the first two characters of `s`.
pub open spec fn leading_two(s: Seq<char>) -> Seq<char> {
    if s.len() <= 2 { s } else { s.take(2) }
}

/// The icon path of an icon id: `/i/0XX000/0ID.png`, where `XX` are the first
/// two digits of the id, with `_hr1` before the extension for the large icon.
pub open spec fn icon_url(id: nat, hd: bool) -> Seq<char> {
    "/i/0"@ + leading_two(decimal(id)) + "000/0"@ + decimal(id) + (if hd { "_hr1"@ } else { ""@ })
        + ".png"@
}

/// The name of an item kind from the major order of its UI category.
pub open spec fn order_major_name(major: u32) -> Seq<char> {
    if major == 1 { "Arms"@ }
    else if major == 2 { "Tools"@ }
    else if major == 3 { "Armor"@ }
    else if major == 4 { "Accesories"@ }
    else if major == 5 { "Medicines & Meals"@ }
    else if major == 6 { "Materials"@ }
    else if major == 7 { "Other"@ }
    else { "Unknown"@ }
}

pub proof fn lemma_decimal_len(n: nat)
    ensures
        decimal(n).len() >= 1,
        n >= 10 ==> decimal(n).len() >= 2,
        n < 100 ==> decimal(n).len() <= 2,
    decreases n,
{
    if n >= 10 {
        lemma_decimal_len(n / 10);
    }
}

/// The first two digits of `n` are those of `n / 10` once `n` has three digits.
proof fn lemma_decimal_prefix(n: nat)
    requires
        n >= 100,
    ensures
        leading_two(decimal(n)) == leading_two(decimal(n / 10)),
{
    lemma_decimal_len(n);
    lemma_decimal_len(n / 10);
    assert(decimal(n) == decimal(n / 10).push(digit_char(n % 10)));
    assert(decimal(n).take(2) =~= decimal(n / 10).take(2));
}

fn digit_str(d: u16) -> (r: &'static str)
    requires
        d < 10,
    ensures
        r@ == seq![digit_char(d as nat)],
{
    proof {
        reveal_strlit("0");
        reveal_strlit("1");
        reveal_strlit("2");
        reveal_strlit("3");
        reveal_strlit("4");
        reveal_strlit("5");
        reveal_strlit("6");
        reveal_strlit("7");
        reveal_strlit("8");
        reveal_strlit("9");
    }
    let r = if d == 0 { "0" }
    else if d == 1 { "1" }
    else if d == 2 { "2" }
    else if d == 3 { "3" }
    else if d == 4 { "4" }
    else if d == 5 { "5" }
    else if d == 6 { "6" }
    else if d == 7 { "7" }
    else if d == 8 { "8" }
    else { "9" };
    assert(r@ =~= seq![digit_char(d as nat)]);
    r
}

/// Appends the decimal representation of `n` to `s`.
fn push_decimal(s: &mut String, n: u16)
    ensures
        final(s)@ == old(s)@ + decimal(n as nat),
    decreases n,
{
    if n >= 10 {
        push_decimal(s, n / 10);
        s.append(digit_str(n % 10));
        assert(decimal(n as nat) == decimal((n / 10) as nat).push(digit_char((n % 10) as nat)));
        assert(final(s)@ =~= old(s)@ + decimal(n as nat));
    } else {
        s.append(digit_str(n));
        assert(final(s)@ =~= old(s)@ + decimal(n as nat));
    }
}

/// The path of the icon `id`, the large one where `hd` holds.
pub fn icon_id_to_url(id: u16, hd: bool) -> (r: String)
    ensures
        r@ == icon_url(id as nat, hd),
{
    let mut lead: u16 = id;
    while lead >= 100
        invariant
            leading_two(decimal(lead as nat)) == leading_two(decimal(id as nat)),
        decreases lead,
    {
        proof {
            lemma_decimal_prefix(lead as nat);
        }
        lead = lead / 10;
    }
    proof {
        lemma_decimal_len(lead as nat);
    }
    let mut r = String::from_str("/i/0");
    push_decimal(&mut r, lead);
    r.append("000/0");
    push_decimal(&mut r, id);
    if hd {
        r.append("_hr1");
    } else {
        r.append("");
    }
    r.append(".png");
    assert(r@ =~= icon_url(id as nat, hd));
    r
}

/// The name of the item kind whose UI category has major order `major`.
pub fn order_major_to_str(major: u32) -> (r: &'static str)
    ensures
        r@ == order_major_name(major),
{
    match major {
        1 => "Arms",
        2 => "Tools",
        3 => "Armor",
        4 => "Accesories",
        5 => "Medicines & Meals",
        6 => "Materials",
        7 => "Other",
        _ => "Unknown",
    }
}

} // verus!
