//! The status line: memory, network traffic, video resolution, list sizes, and
//! the filter on the diagnostics stream.

use crate::text::{
    contains, decimal, decimal_text, has_part, join3, law_decimal_reads_back,
    law_part_stands_in_the_text,
};
use vstd::arithmetic::div_mod::lemma_div_denominator;
use vstd::prelude::*;
use vstd::seq_lib::lemma_seq_contains_after_push;
use vstd::string::StringExecFns;

verus! {

/// A font-shaping library writes this to the diagnostics stream over and over;
/// lines that mention it are dropped.
pub const DIAGNOSTICS_NOISE: &'static str = "ICU4X data error";

/// What is written on of a line of the diagnostics stream: nothing of a line
/// that could not be read or that mentions the noise, else the line itself.
pub open spec fn forwarded(line: Option<Seq<char>>) -> Option<Seq<char>> {
    match line {
        Some(text) if !has_part(text, DIAGNOSTICS_NOISE@) => Some(text),
        _ => None,
    }
}

/// The characters of an optional string.
pub open spec fn optional_text(text: Option<String>) -> Option<Seq<char>> {
    match text {
        Some(text) => Some(text@),
        None => None,
    }
}

/// Decides on one line of the diagnostics stream. `None` stands for a line
/// that could not be read.
pub fn forward_line(line: Option<String>) -> (kept: Option<String>)
    ensures
        optional_text(kept) == forwarded(optional_text(line)),
        match line {
            Some(text) => if has_part(text@, "ICU4X data error"@) {
                kept is None
            } else {
                kept matches Some(same) && same@ == text@
            },
            None => kept is None,
        },
{
    match line {
        Some(text) => if contains(text.as_str(), DIAGNOSTICS_NOISE) {
            None
        } else {
            Some(text)
        },
        None => None,
    }
}

/// The label of an amount of memory.
pub open spec fn memory_text(used_bytes: nat) -> Seq<char> {
    decimal(used_bytes / 1_048_576) + "MB"@
}

/// Memory is shown in whole mebibytes: what is left over does not show, up to
/// the last byte before the next one.
pub proof fn law_memory_is_shown_in_whole_mebibytes(mebibytes: nat, rest: nat)
    requires
        rest < 1024 * 1024,
    ensures
        memory_text(mebibytes * 1024 * 1024 + rest) == decimal(mebibytes) + "MB"@,
{
    assert((mebibytes * 1024 * 1024 + rest) / 1_048_576 == mebibytes);
}

/// The label of the memory in use, in whole mebibytes.
pub fn mem_usage_label(used_bytes: u64) -> (label: String)
    ensures
        label@ == decimal(used_bytes as nat / 1_048_576) + "MB"@,
        label@ == memory_text(used_bytes as nat),
{
    proof {
        lemma_div_denominator(used_bytes as int, 1024, 1024);
    }
    let mut label = decimal_text(used_bytes / 1024 / 1024);
    label.append("MB");
    label
}

/// The label of a size.
pub open spec fn resolution_text(width: nat, height: nat) -> Seq<char> {
    decimal(width) + "x"@ + decimal(height)
}

/// Width and height can be read back from the label of a size: the digits
/// before its only `x` are the width, those after it the height.
pub proof fn law_resolution_reads_back(width: nat, height: nat)
    ensures
        ({
            let text = resolution_text(width, height);
            let at = decimal(width).len() as int;
            &&& text[at] == 'x'
            &&& forall|i: int| 0 <= i < text.len() && i != at ==> #[trigger] text[i] != 'x'
            &&& text.take(at) == decimal(width)
            &&& text.skip(at + 1) == decimal(height)
        }),
{
    reveal_strlit("x");
    law_decimal_reads_back(width);
    law_decimal_reads_back(height);
    let text = resolution_text(width, height);
    let at = decimal(width).len() as int;
    assert(text.take(at) =~= decimal(width));
    assert(text.skip(at + 1) =~= decimal(height));
    assert forall|i: int| 0 <= i < text.len() && i != at implies #[trigger] text[i] != 'x' by {
        if i < at {
            assert(text[i] == decimal(width)[i]);
        } else {
            assert(text[i] == decimal(height)[i - at - 1]);
        }
    }
}

/// The label of a picture size: width, `x`, height.
pub fn resolution_label(width: u32, height: u32) -> (label: String)
    ensures
        label@ == decimal(width as nat) + "x"@ + decimal(height as nat),
        label@ == resolution_text(width as nat, height as nat),
{
    let width_text = decimal_text(width as u64);
    let height_text = decimal_text(height as u64);
    join3(width_text.as_str(), "x", height_text.as_str())
}

/// The row count of a list, as the counters on screen hold it. A count beyond
/// their range keeps its low 32 bits.
pub fn row_count(rows: usize) -> (count: i32)
    ensures
        rows <= i32::MAX ==> count == rows,
        count == rows as i32,
{
    #[verifier::truncate]
    let count = rows as i32;
    count
}

/// Bytes that one network interface received and sent since the last reading.
#[derive(Clone, Copy, Debug, PartialEq, Eq, Structural)]
pub struct InterfaceTraffic {
    pub received: u64,
    pub transmitted: u64,
}

impl InterfaceTraffic {
    /// Bytes in both directions.
    pub open spec fn bytes(self) -> nat {
        (self.received + self.transmitted) as nat
    }
}

/// Bytes over all interfaces in both directions.
pub open spec fn total_bytes(traffic: Seq<InterfaceTraffic>) -> nat
    decreases traffic.len(),
{
    if traffic.len() == 0 {
        0
    } else {
        total_bytes(traffic.drop_last()) + traffic.last().bytes()
    }
}

proof fn lemma_total_bytes_is_sum(
    traffic: Seq<InterfaceTraffic>,
    add_received: spec_fn(int, InterfaceTraffic) -> int,
    add_transmitted: spec_fn(int, InterfaceTraffic) -> int,
)
    requires
        forall|sum: int, sample: InterfaceTraffic| #[trigger]
            add_received(sum, sample) == sum + sample.received,
        forall|sum: int, sample: InterfaceTraffic| #[trigger]
            add_transmitted(sum, sample) == sum + sample.transmitted,
    ensures
        total_bytes(traffic) == traffic.fold_left(0, add_received) + traffic.fold_left(
            0,
            add_transmitted,
        ),
    decreases traffic.len(),
{
    if traffic.len() > 0 {
        lemma_total_bytes_is_sum(traffic.drop_last(), add_received, add_transmitted);
    }
}

/// The traffic of a list is the sum of what its interfaces received plus the
/// sum of what they sent.
pub proof fn law_traffic_counts_both_directions(traffic: Seq<InterfaceTraffic>)
    ensures
        total_bytes(traffic) == traffic.fold_left(
            0,
            |sum: int, sample: InterfaceTraffic| sum + sample.received,
        ) + traffic.fold_left(0, |sum: int, sample: InterfaceTraffic| sum + sample.transmitted),
{
    lemma_total_bytes_is_sum(
        traffic,
        |sum: int, sample: InterfaceTraffic| sum + sample.received,
        |sum: int, sample: InterfaceTraffic| sum + sample.transmitted,
    );
}

/// Each interface adds what it received and what it sent, wherever it stands
/// in the list and whatever the numbers are. Without interfaces there is no
/// traffic.
pub proof fn law_each_interface_adds_its_traffic(
    before: Seq<InterfaceTraffic>,
    sample: InterfaceTraffic,
    after: Seq<InterfaceTraffic>,
)
    ensures
        total_bytes(Seq::empty()) == 0,
        sample.bytes() == sample.received + sample.transmitted,
        total_bytes(before.push(sample) + after) == total_bytes(before + after) + sample.received
            + sample.transmitted,
{
    let whole = before.push(sample) + after;
    lemma_total_bytes_without(whole, before.len() as int);
    assert(whole.remove(before.len() as int) =~= before + after);
    assert(whole[before.len() as int] == sample);
}

proof fn lemma_total_bytes_prefix(traffic: Seq<InterfaceTraffic>, n: int)
    requires
        0 <= n <= traffic.len(),
    ensures
        total_bytes(traffic.take(n)) <= total_bytes(traffic),
    decreases traffic.len() - n,
{
    if n < traffic.len() {
        assert(traffic.take(n + 1).drop_last() =~= traffic.take(n));
        lemma_total_bytes_prefix(traffic, n + 1);
    } else {
        assert(traffic.take(n) =~= traffic);
    }
}

/// Bits over all interfaces in both directions, or `None` where the number
/// does not fit.
pub fn network_bits(traffic: &Vec<InterfaceTraffic>) -> (bits: Option<u64>)
    ensures
        match bits {
            Some(bits) => bits == total_bytes(traffic@) * 8,
            None => total_bytes(traffic@) * 8 > u64::MAX,
        },
        ({
            let received = traffic@.fold_left(
                0,
                |sum: int, sample: InterfaceTraffic| sum + sample.received,
            );
            let transmitted = traffic@.fold_left(
                0,
                |sum: int, sample: InterfaceTraffic| sum + sample.transmitted,
            );
            match bits {
                Some(bits) => bits == 8 * (received + transmitted),
                None => 8 * (received + transmitted) > u64::MAX,
            }
        }),
{
    proof {
        law_traffic_counts_both_directions(traffic@);
    }
    let mut received: u64 = 0;
    let mut transmitted: u64 = 0;
    let mut i: usize = 0;
    while i < traffic.len()
        invariant
            i <= traffic.len(),
            received + transmitted == total_bytes(traffic@.take(i as int)),
        decreases traffic.len() - i,
    {
        proof {
            assert(traffic@.take(i + 1).drop_last() =~= traffic@.take(i as int));
            lemma_total_bytes_prefix(traffic@, i + 1);
            law_traffic_counts_both_directions(traffic@);
        }
        let sample = traffic[i];
        received = match received.checked_add(sample.received) {
            Some(sum) => sum,
            None => return None,
        };
        transmitted = match transmitted.checked_add(sample.transmitted) {
            Some(sum) => sum,
            None => return None,
        };
        i = i + 1;
    }
    assert(traffic@.take(i as int) =~= traffic@);
    match received.checked_add(transmitted) {
        Some(bytes) => bytes.checked_mul(8),
        None => None,
    }
}

proof fn lemma_total_bytes_without(traffic: Seq<InterfaceTraffic>, i: int)
    requires
        0 <= i < traffic.len(),
    ensures
        total_bytes(traffic) == total_bytes(traffic.remove(i)) + traffic[i].bytes(),
    decreases traffic.len(),
{
    if i == traffic.len() - 1 {
        assert(traffic.remove(i) =~= traffic.drop_last());
    } else {
        lemma_total_bytes_without(traffic.drop_last(), i);
        assert(traffic.remove(i).drop_last() =~= traffic.drop_last().remove(i));
        assert(traffic.remove(i).last() == traffic.last());
    }
}

/// The traffic shown does not depend on the order in which the interfaces are
/// listed.
pub proof fn law_traffic_ignores_interface_order(
    one: Seq<InterfaceTraffic>,
    other: Seq<InterfaceTraffic>,
)
    requires
        one.to_multiset() == other.to_multiset(),
    ensures
        total_bytes(one) == total_bytes(other),
    decreases one.len(),
{
    one.to_multiset_ensures();
    other.to_multiset_ensures();
    if one.len() > 0 {
        let last = one.len() - 1;
        assert(one.contains(one[last]));
        assert(other.to_multiset().count(one[last]) > 0);
        let i = choose|i: int| 0 <= i < other.len() && other[i] == one[last];
        lemma_total_bytes_without(one, last);
        lemma_total_bytes_without(other, i);
        assert(one.remove(last).to_multiset() == other.remove(i).to_multiset());
        law_traffic_ignores_interface_order(one.remove(last), other.remove(i));
    }
}

/// What is written on of a run of lines of the diagnostics stream.
pub open spec fn forwarded_lines(lines: Seq<Option<Seq<char>>>) -> Seq<Seq<char>>
    decreases lines.len(),
{
    if lines.len() == 0 {
        Seq::empty()
    } else {
        match forwarded(lines.last()) {
            Some(text) => forwarded_lines(lines.drop_last()).push(text),
            None => forwarded_lines(lines.drop_last()),
        }
    }
}

/// A line is dropped exactly when it could not be read or the noise stands
/// somewhere in it; every other line is written on as it is.
pub proof fn law_noisy_line_is_dropped(text: Seq<char>, before: Seq<char>, after: Seq<char>)
    ensures
        forwarded(None) is None,
        forwarded(Some(before + "ICU4X data error"@ + after)) is None,
        forwarded(Some(text)) is None <==> exists|front: Seq<char>, back: Seq<char>|
            text == #[trigger] (front + "ICU4X data error"@ + back),
        forwarded(Some(text)) is Some ==> forwarded(Some(text)) == Some(text),
{
    law_part_stands_in_the_text(text, "ICU4X data error"@);
    law_part_stands_in_the_text(before + "ICU4X data error"@ + after, "ICU4X data error"@);
}

/// A run of one line gives that line or nothing.
pub proof fn law_one_line_gives_at_most_itself(line: Option<Seq<char>>)
    ensures
        forwarded_lines(seq![line]) == match forwarded(line) {
            Some(_) => seq![line->0],
            None => Seq::empty(),
        },
{
    assert(seq![line].drop_last() =~= Seq::empty());
    assert(forwarded_lines(Seq::empty()) =~= Seq::empty());
    if let Some(text) = forwarded(line) {
        assert(Seq::empty().push(text) =~= seq![text]);
    }
}

/// Lines are decided one by one and in order: what is written on of two runs,
/// one after the other, is what is written on of each.
pub proof fn law_lines_are_forwarded_in_order(
    first: Seq<Option<Seq<char>>>,
    second: Seq<Option<Seq<char>>>,
)
    ensures
        forwarded_lines(first + second) == forwarded_lines(first) + forwarded_lines(second),
    decreases second.len(),
{
    if second.len() == 0 {
        assert(first + second =~= first);
        assert(forwarded_lines(first) + forwarded_lines(second) =~= forwarded_lines(first));
    } else {
        law_lines_are_forwarded_in_order(first, second.drop_last());
        assert((first + second).drop_last() =~= first + second.drop_last());
        assert((first + second).last() == second.last());
        assert(forwarded_lines(first + second) =~= forwarded_lines(first) + forwarded_lines(second));
    }
}

/// No line that mentions the noise is written on, and every other line that
/// could be read is.
pub proof fn law_only_noise_is_dropped(lines: Seq<Option<Seq<char>>>)
    ensures
        forall|text: Seq<char>| #[trigger]
            forwarded_lines(lines).contains(text) <==> lines.contains(Some(text)) && !has_part(
                text,
                DIAGNOSTICS_NOISE@,
            ),
    decreases lines.len(),
{
    if lines.len() > 0 {
        law_only_noise_is_dropped(lines.drop_last());
        let before = forwarded_lines(lines.drop_last());
        assert forall|text: Seq<char>| #[trigger]
            forwarded_lines(lines).contains(text) <==> lines.contains(Some(text)) && !has_part(
                text,
                DIAGNOSTICS_NOISE@,
            ) by {
            assert(lines =~= lines.drop_last().push(lines.last()));
            lemma_seq_contains_after_push(lines.drop_last(), lines.last(), Some(text));
            if let Some(last) = forwarded(lines.last()) {
                lemma_seq_contains_after_push(before, last, text);
            }
            assert(before.contains(text) <==> lines.drop_last().contains(Some(text)) && !has_part(
                text,
                DIAGNOSTICS_NOISE@,
            ));
        }
    }
}

} // verus!
