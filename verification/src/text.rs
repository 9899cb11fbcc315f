//! Texts: their order, joining, prefixes and the decimal numbers they write.

use vstd::prelude::*;

verus! {

/// The characters that the texts of a list hold.
pub open spec fn texts(list: Seq<String>) -> Seq<Seq<char>> {
    list.map_values(|text: String| text@)
}

/// How `{:?}` of `str` writes a text.
pub uninterp spec fn quoted(text: Seq<char>) -> Seq<char>;

/// `a` comes no later than `b` in the order of their characters' code points.
pub open spec fn text_le(a: Seq<char>, b: Seq<char>) -> bool
    decreases a.len(),
{
    if a.len() == 0 {
        true
    } else if b.len() == 0 {
        false
    } else if a[0] != b[0] {
        a[0] < b[0]
    } else {
        text_le(a.drop_first(), b.drop_first())
    }
}

/// `a` comes before `b`, and is another text.
pub open spec fn text_lt(a: Seq<char>, b: Seq<char>) -> bool {
    text_le(a, b) && a != b
}

/// Every text of the list comes no later than those behind it.
pub open spec fn in_order(list: Seq<Seq<char>>) -> bool {
    forall|i: int, j: int| 0 <= i < j < list.len() ==> #[trigger] text_le(list[i], list[j])
}

/// The texts of a list, in order.
pub open spec fn ordered(list: Seq<Seq<char>>) -> Seq<Seq<char>> {
    choose|other: Seq<Seq<char>>| #[trigger]
        in_order(other) && other.to_multiset() == list.to_multiset()
}

/// The texts of a list, with `separator` between each two neighbours.
pub open spec fn joined(list: Seq<Seq<char>>, separator: Seq<char>) -> Seq<char>
    decreases list.len(),
{
    if list.len() == 0 {
        Seq::empty()
    } else if list.len() == 1 {
        list[0]
    } else {
        joined(list.drop_last(), separator) + separator + list.last()
    }
}

/// `c` is one of the ten ASCII digits.
pub open spec fn is_digit(c: char) -> bool {
    '0' <= c && c <= '9'
}

/// The number that a sequence of digits writes.
pub open spec fn digits_value(digits: Seq<char>) -> nat
    decreases digits.len(),
{
    if digits.len() == 0 {
        0
    } else {
        10 * digits_value(digits.drop_last()) + (digits.last() as nat - '0' as nat) as nat
    }
}

/// The characters behind an optional leading `+`.
pub open spec fn unsigned_part(text: Seq<char>) -> Seq<char> {
    if text.len() > 0 && text[0] == '+' {
        text.drop_first()
    } else {
        text
    }
}

/// The number that a text writes in decimal: an optional `+`, then one digit
/// or more, and nothing else.
pub open spec fn decimal(text: Seq<char>) -> Option<nat> {
    let digits = unsigned_part(text);
    if digits.len() > 0 && (forall|i: int| 0 <= i < digits.len() ==> is_digit(#[trigger] digits[i])) {
        Some(digits_value(digits))
    } else {
        None
    }
}

/// Every text is in order with itself.
pub proof fn text_le_reflexive(a: Seq<char>)
    ensures
        text_le(a, a),
    decreases a.len(),
{
    if a.len() > 0 {
        text_le_reflexive(a.drop_first());
    }
}

/// Of two texts one comes no later than the other.
pub proof fn text_le_total(a: Seq<char>, b: Seq<char>)
    ensures
        text_le(a, b) || text_le(b, a),
    decreases a.len(),
{
    if a.len() > 0 && b.len() > 0 && a[0] == b[0] {
        text_le_total(a.drop_first(), b.drop_first());
    }
}

/// Two texts that each come no later than the other are the same.
pub proof fn text_le_antisymmetric(a: Seq<char>, b: Seq<char>)
    requires
        text_le(a, b),
        text_le(b, a),
    ensures
        a == b,
    decreases a.len(),
{
    if a.len() > 0 && b.len() > 0 {
        let (x, y) = (a.drop_first(), b.drop_first());
        text_le_antisymmetric(x, y);
        assert forall|i: int| 0 <= i < a.len() implies a[i] == b[i] by {
            if i > 0 {
                assert(a[i] == x[i - 1]);
                assert(b[i] == y[i - 1]);
            }
        }
    }
    assert(a =~= b);
}

/// The order of texts is transitive.
pub proof fn text_le_transitive(a: Seq<char>, b: Seq<char>, c: Seq<char>)
    requires
        text_le(a, b),
        text_le(b, c),
    ensures
        text_le(a, c),
    decreases a.len(),
{
    if a.len() > 0 && b.len() > 0 && c.len() > 0 && a[0] == b[0] && b[0] == c[0] {
        text_le_transitive(a.drop_first(), b.drop_first(), c.drop_first());
    }
}

/// One text comes before another exactly where the other does not come first or
/// equal.
pub proof fn text_lt_is_not_ge(a: Seq<char>, b: Seq<char>)
    ensures
        text_lt(a, b) <==> !text_le(b, a),
{
    text_le_total(a, b);
    text_le_reflexive(a);
    if text_le(a, b) && text_le(b, a) {
        text_le_antisymmetric(a, b);
    }
}

/// The order of texts, as a relation.
spec fn text_order() -> spec_fn(Seq<char>, Seq<char>) -> bool {
    |a: Seq<char>, b: Seq<char>| text_le(a, b)
}

proof fn text_order_is_total()
    ensures
        vstd::relations::total_ordering(text_order()),
{
    let leq = text_order();
    assert forall|a: Seq<char>| #[trigger] leq(a, a) by {
        text_le_reflexive(a);
    }
    assert forall|a: Seq<char>, b: Seq<char>| #[trigger] leq(a, b) && #[trigger] leq(b, a) implies a
        == b by {
        text_le_antisymmetric(a, b);
    }
    assert forall|a: Seq<char>, b: Seq<char>, c: Seq<char>| #[trigger]
        leq(a, b) && #[trigger] leq(b, c) implies leq(a, c) by {
        text_le_transitive(a, b, c);
    }
    assert forall|a: Seq<char>, b: Seq<char>| #[trigger] leq(a, b) || #[trigger] leq(b, a) by {
        text_le_total(a, b);
    }
}

/// Two ordered lists of the same texts are the same list: what order the texts
/// came in leaves no trace.
pub proof fn ordered_lists_agree(a: Seq<Seq<char>>, b: Seq<Seq<char>>)
    requires
        in_order(a),
        in_order(b),
        a.to_multiset() == b.to_multiset(),
    ensures
        a == b,
{
    text_order_is_total();
    assert(vstd::relations::sorted_by(a, text_order()));
    assert(vstd::relations::sorted_by(b, text_order()));
    vstd::seq_lib::lemma_sorted_unique(a, b, text_order());
}

/// Every list can be put in order.
pub proof fn ordered_is_in_order(list: Seq<Seq<char>>)
    ensures
        in_order(ordered(list)),
        ordered(list).to_multiset() == list.to_multiset(),
{
    text_order_is_total();
    let sorted = list.sort_by(text_order());
    list.lemma_sort_by_ensures(text_order());
    assert(in_order(sorted)) by {
        assert forall|i: int, j: int| 0 <= i < j < sorted.len() implies #[trigger] text_le(
            sorted[i],
            sorted[j],
        ) by {
            assert(text_order()(sorted[i], sorted[j]));
        }
    }
}

/// The characters of a text, one by one.
pub(crate) fn chars_of(text: &str) -> (chars: Vec<char>)
    ensures
        chars@ == text@,
{
    let mut chars: Vec<char> = Vec::new();
    for c in iter: text.chars()
        invariant
            iter.seq() == text@,
            chars@ == text@.take(iter.index() as int),
    {
        chars.push(c);
    }
    assert(text@.take(text@.len() as int) =~= text@);
    chars
}

/// Whether `a` comes no later than `b`.
pub fn is_text_le(a: &str, b: &str) -> (le: bool)
    ensures
        le == text_le(a@, b@),
{
    let x = chars_of(a);
    let y = chars_of(b);
    let mut i: usize = 0;
    assert(x@.skip(0) =~= a@);
    assert(y@.skip(0) =~= b@);
    while i < x.len() && i < y.len() && x[i] == y[i]
        invariant
            i <= x@.len(),
            i <= y@.len(),
            text_le(x@, y@) == text_le(x@.skip(i as int), y@.skip(i as int)),
        decreases x@.len() - i,
    {
        assert(x@.skip(i as int).drop_first() =~= x@.skip(i + 1));
        assert(y@.skip(i as int).drop_first() =~= y@.skip(i + 1));
        i += 1;
    }
    i >= x.len() || (i < y.len() && x[i] < y[i])
}

/// Whether two texts hold the same characters.
pub fn is_same_text(a: &str, b: &str) -> (same: bool)
    ensures
        same == (a@ == b@),
{
    let x = chars_of(a);
    let y = chars_of(b);
    if x.len() != y.len() {
        return false;
    }
    let mut i: usize = 0;
    while i < x.len()
        invariant
            i <= x@.len(),
            x@.len() == y@.len(),
            x@ == a@,
            y@ == b@,
            forall|k: int| 0 <= k < i ==> x@[k] == y@[k],
        decreases x@.len() - i,
    {
        if x[i] != y[i] {
            return false;
        }
        i += 1;
    }
    assert(x@ =~= y@);
    true
}

/// `{:?}` of `str` writes a text in quotes, with escapes; what it writes is named
/// [`quoted`].
#[verifier::external_body]
pub(crate) fn quote(text: &str) -> (written: String)
    ensures
        written@ == quoted(text@),
{
    format!("{text:?}")
}

/// A text made of `head` and, behind it, `tail`.
pub fn concatenate(head: &str, tail: &str) -> (whole: String)
    ensures
        whole@ == head@ + tail@,
{
    let mut whole = head.to_string();
    whole.append(tail);
    whole
}

/// The texts of a list, with `separator` between each two neighbours.
pub fn join(list: &Vec<String>, separator: &str) -> (whole: String)
    ensures
        whole@ == joined(texts(list@), separator@),
{
    let mut whole = String::new();
    let mut i: usize = 0;
    while i < list.len()
        invariant
            i <= list@.len(),
            whole@ == joined(texts(list@).take(i as int), separator@),
        decreases list@.len() - i,
    {
        proof {
            let head = texts(list@).take(i + 1);
            assert(head.drop_last() =~= texts(list@).take(i as int));
            assert(head.last() == list@[i as int]@);
        }
        if i > 0 {
            whole.append(separator);
        }
        whole.append(list[i].as_str());
        assert(i == 0 ==> whole@ =~= list@[0]@);
        i += 1;
    }
    assert(texts(list@).take(list@.len() as int) =~= texts(list@));
    whole
}

/// Puts `text` into an ordered list, behind the texts that come before it.
fn insert_in_order(list: &mut Vec<String>, text: String)
    requires
        in_order(texts(old(list)@)),
    ensures
        in_order(texts(final(list)@)),
        texts(final(list)@).to_multiset() == texts(old(list)@).to_multiset().insert(text@),
{
    let mut at: usize = 0;
    while at < list.len() && is_text_le(list[at].as_str(), text.as_str())
        invariant
            at <= list@.len(),
            list@ == old(list)@,
            forall|k: int| 0 <= k < at ==> text_le(#[trigger] texts(list@)[k], text@),
        decreases list@.len() - at,
    {
        assert(texts(list@)[at as int] == list@[at as int]@);
        at += 1;
    }
    let ghost before = texts(list@);
    let ghost content = text@;
    proof {
        vstd::seq_lib::to_multiset_insert(before, at as int, content);
        assert forall|k: int| at <= k < before.len() implies text_le(content, #[trigger] before[k]) by {
            text_le_total(content, before[at as int]);
            if k > at {
                assert(text_le(before[at as int], before[k]));
                text_le_transitive(content, before[at as int], before[k]);
            }
        }
    }
    list.insert(at, text);
    proof {
        let after = texts(list@);
        assert(after =~= before.insert(at as int, content));
        assert forall|i: int, j: int| 0 <= i < j < after.len() implies #[trigger] text_le(
            after[i],
            after[j],
        ) by {
            if i < at && j > at {
                assert(text_le(before[i], before[j - 1]));
            } else if j < at {
                assert(text_le(before[i], before[j]));
            } else if i > at {
                assert(text_le(before[i - 1], before[j - 1]));
            } else if i == at {
                assert(text_le(content, before[j - 1]));
            } else {
                assert(text_le(before[i], content));
            }
        }
    }
}

/// The same texts, in order.
pub fn sort(list: Vec<String>) -> (sorted: Vec<String>)
    ensures
        in_order(texts(sorted@)),
        texts(sorted@).to_multiset() == texts(list@).to_multiset(),
        texts(sorted@) == ordered(texts(list@)),
{
    let mut sorted: Vec<String> = Vec::new();
    let mut i: usize = 0;
    assert(texts(sorted@) =~= texts(list@).take(0));
    while i < list.len()
        invariant
            i <= list@.len(),
            in_order(texts(sorted@)),
            texts(sorted@).to_multiset() == texts(list@).take(i as int).to_multiset(),
        decreases list@.len() - i,
    {
        proof {
            broadcast use vstd::seq_lib::group_to_multiset_ensures;

            let head = texts(list@).take(i as int);
            assert(texts(list@).take(i + 1) =~= head.push(list@[i as int]@));
            assert(head.push(list@[i as int]@).to_multiset() =~= head.to_multiset().insert(
                list@[i as int]@,
            ));
        }
        insert_in_order(&mut sorted, list[i].clone());
        i += 1;
    }
    assert(texts(list@).take(list@.len() as int) =~= texts(list@));
    proof {
        ordered_lists_agree(texts(sorted@), ordered(texts(list@)));
    }
    sorted
}

/// More digits behind a number write no smaller one.
proof fn digits_value_grows(digits: Seq<char>, count: int)
    requires
        0 <= count <= digits.len(),
    ensures
        digits_value(digits.take(count)) <= digits_value(digits),
    decreases digits.len() - count,
{
    if count == digits.len() {
        assert(digits.take(count) =~= digits);
    } else {
        digits_value_grows(digits, count + 1);
        assert(digits.take(count + 1).drop_last() =~= digits.take(count));
    }
}

/// The number that a text writes in decimal, if it is at most `limit`.
pub fn parse_decimal(text: &str, limit: u32) -> (number: Option<u32>)
    ensures
        number == (match decimal(text@) {
            Some(value) => if value <= limit {
                Some(value as u32)
            } else {
                None
            },
            None => None,
        }),
{
    let chars = chars_of(text);
    let start: usize = if chars.len() > 0 && chars[0] == '+' {
        1
    } else {
        0
    };
    let ghost digits = unsigned_part(text@);
    assert(digits =~= text@.skip(start as int));
    if start == chars.len() {
        return None;
    }
    let mut i: usize = start;
    while i < chars.len()
        invariant
            start <= i <= chars@.len(),
            chars@ == text@,
            digits == unsigned_part(text@),
            digits == text@.skip(start as int),
            forall|k: int| 0 <= k < i - start ==> is_digit(#[trigger] digits[k]),
        decreases chars@.len() - i,
    {
        if chars[i] < '0' || '9' < chars[i] {
            assert(!is_digit(digits[i - start]));
            return None;
        }
        assert(is_digit(digits[i - start]));
        i += 1;
    }
    let mut value: u64 = 0;
    i = start;
    while i < chars.len()
        invariant
            start <= i <= chars@.len(),
            chars@ == text@,
            digits == unsigned_part(text@),
            digits == text@.skip(start as int),
            digits.len() > 0,
            forall|k: int| 0 <= k < digits.len() ==> is_digit(#[trigger] digits[k]),
            value == digits_value(digits.take(i - start)),
            value <= limit,
        decreases chars@.len() - i,
    {
        assert(is_digit(digits[i - start]));
        proof {
            let head = digits.take(i - start + 1);
            assert(head.drop_last() =~= digits.take(i - start));
            assert(head.last() == chars@[i as int]);
            digits_value_grows(digits, i - start + 1);
        }
        value = 10 * value + (chars[i] as u64 - '0' as u64);
        if value > limit as u64 {
            return None;
        }
        i += 1;
    }
    assert(digits.take(digits.len() as int) =~= digits);
    Some(value as u32)
}

/// What stands behind `prefix` in `text`, if `text` begins with it.
pub fn strip_prefix<'a>(text: &'a str, prefix: &str) -> (rest: Option<&'a str>)
    ensures
        rest is Some == prefix@.is_prefix_of(text@),
        rest matches Some(rest) ==> rest@ == text@.skip(prefix@.len() as int),
{
    let whole = chars_of(text);
    let head = chars_of(prefix);
    if head.len() > whole.len() {
        return None;
    }
    let mut i: usize = 0;
    while i < head.len()
        invariant
            i <= head@.len() <= whole@.len(),
            whole@ == text@,
            head@ == prefix@,
            forall|k: int| 0 <= k < i ==> whole@[k] == head@[k],
        decreases head@.len() - i,
    {
        if whole[i] != head[i] {
            assert(text@.take(prefix@.len() as int)[i as int] != prefix@[i as int]);
            return None;
        }
        i += 1;
    }
    assert(prefix@ =~= text@.take(prefix@.len() as int));
    Some(text.substring_char(head.len(), whole.len()))
}

} // verus!
