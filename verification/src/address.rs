//! Network addresses and their textual form.
//!
//! An IPv4 address is written as four decimal numbers separated by dots. An IPv6 address is
//! written as groups of lower-case hexadecimal digits separated by colons, the leftmost of its
//! longest runs of two or more zero groups replaced by `::`; an address that embeds an IPv4
//! address after the prefix `::ffff:` shows that part in dotted form.

use crate::text::append_numeral;
use crate::text::decimal;
use crate::text::ends_words;
use crate::text::free_of;
use crate::text::hexadecimal;
use crate::text::joined;
use crate::text::lemma_joined_injective;
use crate::text::lemma_numeral_free_of;
use crate::text::lemma_numeral_injective;
use crate::text::plain_words;
use vstd::prelude::*;
use vstd::string::StringExecFns;

verus! {

/// A 32-bit or 128-bit network address.
#[derive(Clone, Copy, Debug)]
pub enum IpAddress {
    /// An IPv4 address, as its four octets from the most significant down.
    V4([u8; 4]),
    /// An IPv6 address, as its eight 16-bit groups from the most significant down.
    V6([u16; 8]),
}

/// Four octets in dotted decimal form.
pub open spec fn dotted(octets: Seq<u8>) -> Seq<char>
    recommends
        octets.len() == 4,
{
    decimal(octets[0] as nat) + seq!['.'] + decimal(octets[1] as nat) + seq!['.'] + decimal(
        octets[2] as nat,
    ) + seq!['.'] + decimal(octets[3] as nat)
}

/// Groups in hexadecimal, a colon between each two; nothing for no groups.
pub open spec fn grouped(groups: Seq<u16>) -> Seq<char>
    decreases groups.len(),
{
    if groups.len() == 0 {
        Seq::empty()
    } else if groups.len() == 1 {
        hexadecimal(groups[0] as nat)
    } else {
        hexadecimal(groups[0] as nat) + seq![':'] + grouped(groups.drop_first())
    }
}

/// How many zero groups follow each other from position `i` on.
pub open spec fn zeros_from(groups: Seq<u16>, i: int) -> nat
    decreases groups.len() - i,
{
    if 0 <= i < groups.len() && groups[i] == 0 {
        1 + zeros_from(groups, i + 1)
    } else {
        0
    }
}

/// Start and length of the leftmost among the longest runs of zero groups that begin at
/// position `i` or later.
pub open spec fn longest_zero_run(groups: Seq<u16>, i: int) -> (int, nat)
    decreases groups.len() - i,
{
    if 0 <= i < groups.len() {
        let later = longest_zero_run(groups, i + 1);
        if zeros_from(groups, i) >= later.1 {
            (i, zeros_from(groups, i))
        } else {
            later
        }
    } else {
        (i, 0)
    }
}

/// Whether the groups are those of an IPv4 address mapped into IPv6.
pub open spec fn is_mapped(groups: Seq<u16>) -> bool
    recommends
        groups.len() == 8,
{
    groups[0] == 0 && groups[1] == 0 && groups[2] == 0 && groups[3] == 0 && groups[4] == 0
        && groups[5] == 0xffff
}

/// The four octets that the last two groups of an IPv6 address hold.
pub open spec fn embedded_octets(groups: Seq<u16>) -> Seq<u8>
    recommends
        groups.len() == 8,
{
    seq![
        (groups[6] / 256) as u8,
        (groups[6] % 256) as u8,
        (groups[7] / 256) as u8,
        (groups[7] % 256) as u8,
    ]
}

/// The textual form of eight IPv6 groups.
pub open spec fn colon_form(groups: Seq<u16>) -> Seq<char>
    recommends
        groups.len() == 8,
{
    let run = longest_zero_run(groups, 0);
    if is_mapped(groups) {
        seq![':', ':', 'f', 'f', 'f', 'f', ':'] + dotted(embedded_octets(groups))
    } else if run.1 >= 2 {
        grouped(groups.subrange(0, run.0)) + seq![':', ':'] + grouped(
            groups.subrange(run.0 + run.1, groups.len() as int),
        )
    } else {
        grouped(groups)
    }
}

impl IpAddress {
    /// The address in its textual form.
    pub open spec fn text(self) -> Seq<char> {
        match self {
            IpAddress::V4(octets) => dotted(octets@),
            IpAddress::V6(groups) => colon_form(groups@),
        }
    }

    /// The IPv4 address `a.b.c.d`.
    pub fn v4(a: u8, b: u8, c: u8, d: u8) -> (r: IpAddress)
        ensures
            r == IpAddress::V4([a, b, c, d]),
    {
        IpAddress::V4([a, b, c, d])
    }

    /// Appends the textual form of the address to `out`.
    pub fn append_to(&self, out: &mut String)
        ensures
            final(out)@ == old(out)@ + self.text(),
    {
        match self {
            IpAddress::V4(octets) => append_dotted(out, octets[0], octets[1], octets[2], octets[3]),
            IpAddress::V6(groups) => append_colon_form(out, groups),
        }
    }

    /// The address in its textual form, as an owned string.
    pub fn to_text(&self) -> (r: String)
        ensures
            r@ == self.text(),
    {
        let mut out = String::new();
        self.append_to(&mut out);
        out
    }
}

/// Appends four octets in dotted decimal form.
fn append_dotted(out: &mut String, a: u8, b: u8, c: u8, d: u8)
    ensures
        final(out)@ == old(out)@ + dotted(seq![a, b, c, d]),
{
    proof {
        reveal_strlit(".");
    }
    append_numeral(out, 10, a as u64);
    out.append(".");
    append_numeral(out, 10, b as u64);
    out.append(".");
    append_numeral(out, 10, c as u64);
    out.append(".");
    append_numeral(out, 10, d as u64);
}

/// One more group after a non-empty list shows as a colon and the group's digits.
proof fn lemma_grouped_push(groups: Seq<u16>, last: u16)
    ensures
        grouped(groups.push(last)) == if groups.len() == 0 {
            hexadecimal(last as nat)
        } else {
            grouped(groups) + seq![':'] + hexadecimal(last as nat)
        },
    decreases groups.len(),
{
    let all = groups.push(last);
    if groups.len() == 0 {
    } else {
        assert(all.drop_first() =~= groups.drop_first().push(last));
        lemma_grouped_push(groups.drop_first(), last);
        if groups.len() == 1 {
            assert(groups.drop_first() =~= Seq::<u16>::empty());
            assert(grouped(all) =~= grouped(groups) + seq![':'] + hexadecimal(last as nat));
        } else {
            assert(grouped(all) =~= grouped(groups) + seq![':'] + hexadecimal(last as nat));
        }
    }
}

/// Appends the groups from position `from` up to `to`, colons between them.
fn append_grouped(out: &mut String, groups: &[u16; 8], from: usize, to: usize)
    requires
        from <= to <= 8,
    ensures
        final(out)@ == old(out)@ + grouped(groups@.subrange(from as int, to as int)),
{
    proof {
        reveal_strlit(":");
    }
    let mut i: usize = from;
    while i < to
        invariant
            from <= i <= to <= 8,
            ":"@ == seq![':'],
            out@ == old(out)@ + grouped(groups@.subrange(from as int, i as int)),
        decreases to - i,
    {
        if i > from {
            out.append(":");
        }
        append_numeral(out, 16, groups[i] as u64);
        proof {
            let done = groups@.subrange(from as int, i as int);
            assert(groups@.subrange(from as int, i + 1) =~= done.push(groups@[i as int]));
            lemma_grouped_push(done, groups@[i as int]);
        }
        i = i + 1;
    }
}

/// Finds the leftmost among the longest runs of zero groups.
fn find_zero_run(groups: &[u16; 8]) -> (r: (usize, usize))
    ensures
        (r.0 as int, r.1 as nat) == longest_zero_run(groups@, 0),
        r.0 + r.1 <= 8,
{
    let mut i: usize = 8;
    let mut current: usize = 0;
    let mut best: (usize, usize) = (8, 0);
    while i > 0
        invariant
            i <= 8,
            current as nat == zeros_from(groups@, i as int),
            (best.0 as int, best.1 as nat) == longest_zero_run(groups@, i as int),
            i + current <= 8,
            best.0 + best.1 <= 8,
        decreases i,
    {
        i = i - 1;
        if groups[i] == 0 {
            current = current + 1;
        } else {
            current = 0;
        }
        if current >= best.1 {
            best = (i, current);
        }
    }
    best
}

/// Appends the textual form of eight IPv6 groups.
fn append_colon_form(out: &mut String, groups: &[u16; 8])
    ensures
        final(out)@ == old(out)@ + colon_form(groups@),
{
    if groups[0] == 0 && groups[1] == 0 && groups[2] == 0 && groups[3] == 0 && groups[4] == 0
        && groups[5] == 0xffff {
        proof {
            reveal_strlit("::ffff:");
        }
        out.append("::ffff:");
        let a: u8 = (groups[6] / 256) as u8;
        let b: u8 = (groups[6] % 256) as u8;
        let c: u8 = (groups[7] / 256) as u8;
        let d: u8 = (groups[7] % 256) as u8;
        append_dotted(out, a, b, c, d);
    } else {
        let run = find_zero_run(groups);
        if run.1 >= 2 {
            proof {
                reveal_strlit("::");
            }
            append_grouped(out, groups, 0, run.0);
            out.append("::");
            append_grouped(out, groups, run.0 + run.1, 8);
        } else {
            append_grouped(out, groups, 0, 8);
            assert(groups@.subrange(0, 8) =~= groups@);
        }
    }
}

/// The octets, each in decimal.
pub open spec fn octet_words(octets: Seq<u8>) -> Seq<Seq<char>> {
    Seq::new(octets.len(), |i: int| decimal(octets[i] as nat))
}

/// The groups, each in hexadecimal.
pub open spec fn group_words(groups: Seq<u16>) -> Seq<Seq<char>> {
    Seq::new(groups.len(), |i: int| hexadecimal(groups[i] as nat))
}

/// The dotted form is the octets in decimal, joined by dots; none of them holds a dot or a
/// colon.
proof fn lemma_dotted_is_joined(octets: Seq<u8>)
    requires
        octets.len() == 4,
    ensures
        dotted(octets) == joined(octet_words(octets), '.'),
        plain_words(octet_words(octets), '.'),
        free_of(dotted(octets), ':'),
        dotted(octets).len() > 0,
{
    let words = octet_words(octets);
    let w1 = words.drop_first();
    let w2 = w1.drop_first();
    let w3 = w2.drop_first();
    assert(joined(w3, '.') == words[3]);
    assert(joined(w1, '.') == words[1] + seq!['.'] + joined(w2, '.'));
    assert forall|i: int| 0 <= i < words.len() implies (#[trigger] words[i]).len() > 0 && free_of(
        words[i],
        '.',
    ) && free_of(words[i], ':') by {
        lemma_numeral_free_of(10, octets[i] as nat, '.');
        lemma_numeral_free_of(10, octets[i] as nat, ':');
    }
}

/// The grouped form is the groups in hexadecimal, joined by colons; none of them holds a colon
/// or a dot.
proof fn lemma_grouped_is_joined(groups: Seq<u16>)
    ensures
        grouped(groups) == joined(group_words(groups), ':'),
        plain_words(group_words(groups), ':'),
        free_of(grouped(groups), '.'),
        groups.len() > 0 ==> grouped(groups).len() > 0 && grouped(groups)[0] != ':',
    decreases groups.len(),
{
    let words = group_words(groups);
    assert forall|i: int| 0 <= i < words.len() implies (#[trigger] words[i]).len() > 0 && free_of(
        words[i],
        ':',
    ) by {
        lemma_numeral_free_of(16, groups[i] as nat, ':');
    }
    if groups.len() > 0 {
        lemma_numeral_free_of(16, groups[0] as nat, ':');
        lemma_numeral_free_of(16, groups[0] as nat, '.');
        if groups.len() > 1 {
            lemma_grouped_is_joined(groups.drop_first());
            assert(words.drop_first() =~= group_words(groups.drop_first()));
        }
    }
}

/// Different octets have different dotted forms.
proof fn lemma_dotted_injective(octets: Seq<u8>, others: Seq<u8>)
    requires
        octets.len() == 4,
        others.len() == 4,
        dotted(octets) == dotted(others),
    ensures
        octets == others,
{
    lemma_dotted_is_joined(octets);
    lemma_dotted_is_joined(others);
    let none = Seq::<char>::empty();
    lemma_joined_injective(octet_words(octets), none, octet_words(others), none, '.');
    assert forall|i: int| 0 <= i < 4 implies octets[i] == others[i] by {
        assert(octet_words(octets)[i] == decimal(octets[i] as nat));
        lemma_numeral_injective(10, octets[i] as nat, others[i] as nat);
    }
}

/// Different groups have different grouped forms, also where something that no group begins
/// with follows them.
proof fn lemma_grouped_injective(groups: Seq<u16>, x: Seq<char>, others: Seq<u16>, y: Seq<char>)
    requires
        ends_words(x, ':'),
        ends_words(y, ':'),
        groups.len() > 0 || x.len() == 0,
        others.len() > 0 || y.len() == 0,
        grouped(groups) + x == grouped(others) + y,
    ensures
        groups == others,
        x == y,
{
    lemma_grouped_is_joined(groups);
    lemma_grouped_is_joined(others);
    if groups.len() == 0 || others.len() == 0 {
        assert(grouped(groups) + x =~= grouped(groups));
        assert(grouped(others) + y =~= grouped(others) || others.len() > 0);
        if groups.len() == 0 && others.len() > 0 {
            assert((grouped(others) + y).len() > 0);
            assert(false);
        }
        if others.len() == 0 && groups.len() > 0 {
            assert(grouped(others) + y =~= grouped(others));
            assert((grouped(groups) + x).len() > 0);
            assert(false);
        }
        assert(groups =~= others);
        assert(x =~= y);
    } else {
        lemma_joined_injective(group_words(groups), x, group_words(others), y, ':');
        assert(groups.len() == others.len()) by {
            assert(group_words(groups).len() == group_words(others).len());
        }
        assert forall|i: int| 0 <= i < groups.len() implies groups[i] == others[i] by {
            assert(group_words(groups)[i] == hexadecimal(groups[i] as nat));
            assert(group_words(others)[i] == hexadecimal(others[i] as nat));
            lemma_numeral_injective(16, groups[i] as nat, others[i] as nat);
        }
        assert(groups =~= others);
    }
}

/// Where a run of zero groups is counted, zero groups stand.
proof fn lemma_zeros_from(groups: Seq<u16>, i: int)
    requires
        0 <= i <= groups.len(),
    ensures
        i + zeros_from(groups, i) <= groups.len(),
        forall|k: int| i <= k < i + zeros_from(groups, i) ==> groups[k] == 0,
    decreases groups.len() - i,
{
    if i < groups.len() && groups[i] == 0 {
        lemma_zeros_from(groups, i + 1);
    }
}

/// The run that is found lies within the groups and consists of zero groups.
proof fn lemma_longest_zero_run(groups: Seq<u16>, i: int)
    requires
        0 <= i <= groups.len(),
    ensures
        ({
            let run = longest_zero_run(groups, i);
            &&& i <= run.0 <= groups.len()
            &&& run.0 + run.1 <= groups.len()
            &&& forall|k: int| run.0 <= k < run.0 + run.1 ==> groups[k] == 0
        }),
    decreases groups.len() - i,
{
    if i < groups.len() {
        lemma_longest_zero_run(groups, i + 1);
        lemma_zeros_from(groups, i);
    }
}

/// The groups before the run that is replaced by `::`.
pub open spec fn before_run(groups: Seq<u16>) -> Seq<u16> {
    groups.subrange(0, longest_zero_run(groups, 0).0)
}

/// The groups after the run that is replaced by `::`.
pub open spec fn after_run(groups: Seq<u16>) -> Seq<u16> {
    let run = longest_zero_run(groups, 0);
    groups.subrange(run.0 + run.1, groups.len() as int)
}

/// Whether a run of the groups is replaced by `::`.
pub open spec fn is_shortened(groups: Seq<u16>) -> bool {
    !is_mapped(groups) && longest_zero_run(groups, 0).1 >= 2
}

/// The form of a shortened address: the groups before the run, `::`, and the groups after it,
/// which together with the zero groups of the run are all its groups.
proof fn lemma_shortened(groups: Seq<u16>)
    requires
        groups.len() == 8,
        is_shortened(groups),
    ensures
        colon_form(groups) == grouped(before_run(groups)) + seq![':', ':'] + grouped(
            after_run(groups),
        ),
        before_run(groups).len() + after_run(groups).len() <= 6,
        forall|k: int|
            before_run(groups).len() <= k < 8 - after_run(groups).len() ==> groups[k] == 0,
        forall|k: int| 0 <= k < before_run(groups).len() ==> groups[k] == before_run(groups)[k],
        forall|k: int|
            0 <= k < after_run(groups).len() ==> groups[8 - after_run(groups).len() + k]
                == after_run(groups)[k],
{
    lemma_longest_zero_run(groups, 0);
}

/// The textual form of an IPv6 address holds a colon, and begins with one unless it begins
/// with its first group.
proof fn lemma_colon_form_has_colon(groups: Seq<u16>)
    requires
        groups.len() == 8,
    ensures
        !free_of(colon_form(groups), ':'),
        colon_form(groups).len() > 0,
        (is_mapped(groups) || (is_shortened(groups) && before_run(groups).len() == 0))
            ==> colon_form(groups)[0] == ':',
        !(is_mapped(groups) || (is_shortened(groups) && before_run(groups).len() == 0))
            ==> colon_form(groups)[0] != ':',
{
    let text = colon_form(groups);
    if is_mapped(groups) {
        assert(text[0] == ':');
    } else if is_shortened(groups) {
        lemma_shortened(groups);
        let before = grouped(before_run(groups));
        lemma_grouped_is_joined(before_run(groups));
        assert(text[before.len() as int] == ':');
        if before_run(groups).len() > 0 {
            assert(text[0] == before[0]);
        } else {
            assert(before.len() == 0);
        }
    } else {
        lemma_grouped_is_joined(groups);
        let first = hexadecimal(groups[0] as nat);
        lemma_numeral_free_of(16, groups[0] as nat, ':');
        assert(grouped(groups) == first + seq![':'] + grouped(groups.drop_first()));
        assert(text[first.len() as int] == ':');
    }
}

/// Two IPv6 addresses of which only the first embeds an IPv4 address differ in their textual
/// forms.
proof fn lemma_mapped_differs(groups: Seq<u16>, others: Seq<u16>)
    requires
        groups.len() == 8,
        others.len() == 8,
        is_mapped(groups),
        !is_mapped(others),
    ensures
        colon_form(groups) != colon_form(others),
{
    lemma_colon_form_has_colon(groups);
    lemma_colon_form_has_colon(others);
    if is_shortened(others) && before_run(others).len() == 0 {
        lemma_shortened(others);
        let octets = embedded_octets(groups);
        let first = decimal(octets[0] as nat);
        let text = colon_form(groups);
        let marker = seq![':', ':', 'f', 'f', 'f', 'f', ':'];
        assert(dotted(octets) =~= first + (seq!['.'] + decimal(octets[1] as nat) + seq!['.']
            + decimal(octets[2] as nat) + seq!['.'] + decimal(octets[3] as nat)));
        assert(text[7 + first.len() as int] == '.');
        let other_text = colon_form(others);
        let tail = grouped(after_run(others));
        lemma_grouped_is_joined(after_run(others));
        assert(grouped(before_run(others)).len() == 0);
        assert(other_text =~= seq![':', ':'] + tail);
        if text == other_text {
            assert(other_text[7 + first.len() as int] == tail[5 + first.len() as int]);
            assert(false);
        }
    }
}

/// Two IPv6 addresses of which only the first is shortened differ in their textual forms,
/// unless the other embeds an IPv4 address.
proof fn lemma_shortened_differs(groups: Seq<u16>, others: Seq<u16>)
    requires
        groups.len() == 8,
        others.len() == 8,
        is_shortened(groups),
        !is_mapped(others),
        !is_shortened(others),
    ensures
        colon_form(groups) != colon_form(others),
{
    lemma_colon_form_has_colon(groups);
    lemma_colon_form_has_colon(others);
    lemma_shortened(groups);
    if before_run(groups).len() > 0 && colon_form(groups) == colon_form(others) {
        let x = seq![':', ':'] + grouped(after_run(groups));
        let none = Seq::<char>::empty();
        assert(colon_form(groups) =~= grouped(before_run(groups)) + x);
        lemma_grouped_injective(before_run(groups), x, others, none);
    }
}

/// Two shortened IPv6 addresses with the same textual form are the same.
proof fn lemma_shortened_injective(groups: Seq<u16>, others: Seq<u16>)
    requires
        groups.len() == 8,
        others.len() == 8,
        is_shortened(groups),
        is_shortened(others),
        colon_form(groups) == colon_form(others),
    ensures
        groups == others,
{
    lemma_colon_form_has_colon(groups);
    lemma_colon_form_has_colon(others);
    lemma_shortened(groups);
    lemma_shortened(others);
    let before = before_run(groups);
    let after = after_run(groups);
    let other_before = before_run(others);
    let other_after = after_run(others);
    let x = seq![':', ':'] + grouped(after);
    let y = seq![':', ':'] + grouped(other_after);
    let none = Seq::<char>::empty();
    assert(colon_form(groups) =~= grouped(before) + x);
    assert(colon_form(others) =~= grouped(other_before) + y);
    if before.len() > 0 {
        assert(other_before.len() > 0);
        lemma_grouped_injective(before, x, other_before, y);
    } else {
        assert(other_before.len() == 0);
        assert(before =~= other_before);
        assert(grouped(before).len() == 0);
        assert(grouped(other_before).len() == 0);
        assert(x =~= grouped(before) + x);
        assert(y =~= grouped(other_before) + y);
    }
    assert(grouped(after) =~= x.subrange(2, x.len() as int));
    assert(grouped(other_after) =~= y.subrange(2, y.len() as int));
    assert(grouped(after) + none =~= grouped(after));
    assert(grouped(other_after) + none =~= grouped(other_after));
    lemma_grouped_injective(after, none, other_after, none);
    assert forall|k: int| 0 <= k < 8 implies groups[k] == others[k] by {
        if k < before.len() {
            assert(groups[k] == before[k]);
            assert(others[k] == other_before[k]);
        } else if k < 8 - after.len() {
        } else {
            let j = k - (8 - after.len());
            assert(groups[8 - after.len() + j] == after[j]);
            assert(others[8 - other_after.len() + j] == other_after[j]);
        }
    }
    assert(groups =~= others);
}

/// Two IPv6 addresses that embed an IPv4 address and have the same textual form are the same.
proof fn lemma_mapped_injective(groups: Seq<u16>, others: Seq<u16>)
    requires
        groups.len() == 8,
        others.len() == 8,
        is_mapped(groups),
        is_mapped(others),
        colon_form(groups) == colon_form(others),
    ensures
        groups == others,
{
    let marker = seq![':', ':', 'f', 'f', 'f', 'f', ':'];
    let octets = embedded_octets(groups);
    let other_octets = embedded_octets(others);
    assert(dotted(octets) =~= (marker + dotted(octets)).subrange(
        7,
        (marker + dotted(octets)).len() as int,
    ));
    assert(dotted(other_octets) =~= (marker + dotted(other_octets)).subrange(
        7,
        (marker + dotted(other_octets)).len() as int,
    ));
    lemma_dotted_injective(octets, other_octets);
}

/// Different IPv6 addresses have different textual forms.
pub proof fn lemma_colon_form_injective(groups: Seq<u16>, others: Seq<u16>)
    requires
        groups.len() == 8,
        others.len() == 8,
        colon_form(groups) == colon_form(others),
    ensures
        groups == others,
{
    if is_mapped(groups) {
        if is_mapped(others) {
            lemma_mapped_injective(groups, others);
        } else {
            lemma_mapped_differs(groups, others);
        }
    } else if is_mapped(others) {
        lemma_mapped_differs(others, groups);
    } else if is_shortened(groups) {
        if is_shortened(others) {
            lemma_shortened_injective(groups, others);
        } else {
            lemma_shortened_differs(groups, others);
        }
    } else if is_shortened(others) {
        lemma_shortened_differs(others, groups);
    } else {
        let none = Seq::<char>::empty();
        lemma_grouped_injective(groups, none, others, none);
    }
}

/// Different addresses have different textual forms.
pub proof fn lemma_text_injective(address: IpAddress, other: IpAddress)
    requires
        address.text() == other.text(),
    ensures
        address == other,
{
    match (address, other) {
        (IpAddress::V4(octets), IpAddress::V4(others)) => {
            lemma_dotted_injective(octets@, others@);
            assert(octets =~= others);
        },
        (IpAddress::V6(groups), IpAddress::V6(others)) => {
            lemma_colon_form_injective(groups@, others@);
            assert(groups =~= others);
        },
        (IpAddress::V4(octets), IpAddress::V6(groups)) => {
            lemma_dotted_is_joined(octets@);
            lemma_colon_form_has_colon(groups@);
        },
        (IpAddress::V6(groups), IpAddress::V4(octets)) => {
            lemma_dotted_is_joined(octets@);
            lemma_colon_form_has_colon(groups@);
        },
    }
}

} // verus!
