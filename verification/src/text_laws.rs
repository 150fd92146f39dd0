//! What holds of numbers as text, of counters, and of the line of a log.

use vstd::prelude::*;

use crate::diagnostics::AudioDiagnostics;
use crate::samples::{counted, min, silence};
use crate::text::{decimal, digit_char, flag_word};

verus! {

/// The smaller of two numbers is one of them, and not larger than either.
pub proof fn law_min_is_the_smaller(a: nat, b: nat)
    ensures
        min(a, b) <= a,
        min(a, b) <= b,
        min(a, b) == a || min(a, b) == b,
{
}

/// Silence is as long as asked for, and every sample of it is zero.
pub proof fn law_silence_is_zero(n: nat, i: int)
    requires
        0 <= i < n,
    ensures
        silence(n).len() == n,
        silence(n)[i] == 0,
{
}

/// A counter counts every event and goes round past the largest `usize`; to count twice is
/// to count the sum.
pub proof fn law_counter_goes_round(counter: usize, n: nat, m: nat)
    requires
        n <= usize::MAX,
        m <= usize::MAX,
    ensures
        counter + n == counted(counter, n) || counter + n == counted(counter, n) + usize::MAX + 1,
        n + m <= usize::MAX ==> counted(counted(counter, n), m) == counted(counter, n + m),
        counted(counter, 0) == counter,
{
}

/// The character is a decimal digit.
pub open spec fn is_digit(c: char) -> bool {
    '0' <= c && c <= '9'
}

/// The numbers that stand in a text, and whether it ends in the middle of one.
pub struct Numbers {
    /// The numbers, in order.
    pub found: Seq<nat>,
    /// The last of them ends with the text.
    pub open: bool,
}

/// The numbers that stand in a text, read from left to right: each longest run of digits is
/// one.
pub open spec fn numbers_in(text: Seq<char>) -> Numbers
    decreases text.len(),
{
    if text.len() == 0 {
        Numbers { found: Seq::empty(), open: false }
    } else {
        let before = numbers_in(text.drop_last());
        let c = text.last();
        if !is_digit(c) {
            Numbers { found: before.found, open: false }
        } else if before.open {
            Numbers {
                found: before.found.drop_last().push(
                    before.found.last() * 10 + (c as nat - '0' as nat) as nat,
                ),
                open: true,
            }
        } else {
            Numbers { found: before.found.push((c as nat - '0' as nat) as nat), open: true }
        }
    }
}

/// A text without its digits.
pub open spec fn without_digits(text: Seq<char>) -> Seq<char>
    decreases text.len(),
{
    if text.len() == 0 {
        Seq::empty()
    } else if is_digit(text.last()) {
        without_digits(text.drop_last())
    } else {
        without_digits(text.drop_last()).push(text.last())
    }
}

/// A digit reads as itself.
proof fn lemma_digit(d: nat)
    requires
        d < 10,
    ensures
        is_digit(digit_char(d)),
        digit_char(d) as nat - '0' as nat == d,
{
}

/// A number written behind a text that does not end in one reads as that number.
proof fn lemma_read_decimal(text: Seq<char>, n: nat)
    requires
        !numbers_in(text).open,
    ensures
        numbers_in(text + decimal(n)).found == numbers_in(text).found.push(n),
        numbers_in(text + decimal(n)).open,
        without_digits(text + decimal(n)) == without_digits(text),
    decreases n,
{
    let all = text + decimal(n);
    lemma_digit(n % 10);
    if n < 10 {
        assert(all.drop_last() =~= text);
        assert(all.last() == digit_char(n));
    } else {
        lemma_read_decimal(text, n / 10);
        assert(all.drop_last() =~= text + decimal(n / 10));
        assert(all.last() == digit_char(n % 10));
        let before = numbers_in(text).found;
        assert(before.push(n / 10).drop_last() =~= before);
    }
}

/// Words written behind a text add no number and end the last.
proof fn lemma_read_words(text: Seq<char>, words: Seq<char>)
    requires
        words.len() > 0,
        forall|i: int| 0 <= i < words.len() ==> !is_digit(#[trigger] words[i]),
    ensures
        numbers_in(text + words).found == numbers_in(text).found,
        !numbers_in(text + words).open,
        without_digits(text + words) == without_digits(text) + words,
    decreases words.len(),
{
    let all = text + words;
    let fewer = words.drop_last();
    assert(all.drop_last() =~= text + fewer);
    assert(all.last() == words[words.len() - 1]);
    if fewer.len() > 0 {
        assert forall|i: int| 0 <= i < fewer.len() implies !is_digit(#[trigger] fewer[i]) by {
            assert(fewer[i] == words[i]);
        }
        lemma_read_words(text, fewer);
        assert((without_digits(text) + fewer).push(words.last()) =~= without_digits(text) + words);
    } else {
        assert(text + fewer =~= text);
        assert(without_digits(text).push(words.last()) =~= without_digits(text) + words);
    }
}

/// A number in decimal notation reads back as that number; it is all digits, and begins with
/// a zero only where it is zero.
pub proof fn law_decimal_reads_back(n: nat, i: int)
    requires
        0 <= i < decimal(n).len(),
    ensures
        numbers_in(decimal(n)).found == seq![n],
        is_digit(decimal(n)[i]),
        n > 0 ==> decimal(n)[0] != '0',
    decreases n,
{
    let none = Seq::<char>::empty();
    assert(none + decimal(n) =~= decimal(n));
    lemma_read_decimal(none, n);
    assert(numbers_in(none).found.push(n) =~= seq![n]);
    lemma_digit(n % 10);
    if n >= 10 {
        let shorter = decimal(n / 10);
        assert(shorter.len() > 0) by {
            reveal_with_fuel(decimal, 2);
        }
        law_decimal_reads_back(n / 10, 0);
        if i < shorter.len() {
            law_decimal_reads_back(n / 10, i);
            assert(decimal(n)[i] == shorter[i]);
        }
        assert(decimal(n)[0] == shorter[0]);
    }
}

/// One more label and number of a line.
proof fn lemma_read_field(text: Seq<char>, label: Seq<char>, n: nat)
    requires
        label.len() > 0,
        forall|i: int| 0 <= i < label.len() ==> !is_digit(#[trigger] label[i]),
    ensures
        numbers_in(text + label + decimal(n)).found == numbers_in(text).found.push(n),
        without_digits(text + label + decimal(n)) == without_digits(text) + label,
{
    lemma_read_words(text, label);
    lemma_read_decimal(text + label, n);
}

/// The line of a log tells every counter, to its last digit, in a fixed order, and whether
/// the engine runs; what stands around the numbers does not depend on them.
pub proof fn law_line_tells_every_counter(d: AudioDiagnostics)
    ensures
        numbers_in(d.line()).found == seq![
            d.capture_callback_count as nat,
            d.capture_samples_pushed as nat,
            d.capture_samples_dropped as nat,
            d.capture_fifo_level as nat,
            d.capture_fifo_lock_fail as nat,
            d.render_callback_count as nat,
            d.render_samples_pulled as nat,
            d.render_lock_fail as nat,
            d.playback_level as nat,
            d.engine_hw_rate as nat,
            d.engine_pb_rate as nat,
            d.engine_upsample_ratio as nat,
            d.engine_build_count as nat,
        ],
        without_digits(d.line()) == "capture(cb="@ + " pushed="@ + " dropped="@ + " fifo_lvl="@
            + " fifo_lockfail="@ + ") render(cb="@ + " pulled="@ + " lockfail="@
            + ") playback_lvl="@ + " engine(hw="@ + "Hz pb="@ + "Hz ratio="@ + " running="@ + (
        if d.engine_running {
            "true"@
        } else {
            "false"@
        }) + " builds="@ + ")"@,
{
    reveal_strlit("capture(cb=");
    reveal_strlit(" pushed=");
    reveal_strlit(" dropped=");
    reveal_strlit(" fifo_lvl=");
    reveal_strlit(" fifo_lockfail=");
    reveal_strlit(") render(cb=");
    reveal_strlit(" pulled=");
    reveal_strlit(" lockfail=");
    reveal_strlit(") playback_lvl=");
    reveal_strlit(" engine(hw=");
    reveal_strlit("Hz pb=");
    reveal_strlit("Hz ratio=");
    reveal_strlit(" running=");
    reveal_strlit(" builds=");
    reveal_strlit(")");
    reveal_strlit("true");
    reveal_strlit("false");
    let none = Seq::<char>::empty();
    assert(none + "capture(cb="@ =~= "capture(cb="@);
    lemma_read_field(none, "capture(cb="@, d.capture_callback_count as nat);
    assert(without_digits(none) + "capture(cb="@ =~= "capture(cb="@);
    let t1 = "capture(cb="@ + decimal(d.capture_callback_count as nat);
    lemma_read_field(t1, " pushed="@, d.capture_samples_pushed as nat);
    let t2 = t1 + " pushed="@ + decimal(d.capture_samples_pushed as nat);
    lemma_read_field(t2, " dropped="@, d.capture_samples_dropped as nat);
    let t3 = t2 + " dropped="@ + decimal(d.capture_samples_dropped as nat);
    lemma_read_field(t3, " fifo_lvl="@, d.capture_fifo_level as nat);
    let t4 = t3 + " fifo_lvl="@ + decimal(d.capture_fifo_level as nat);
    lemma_read_field(t4, " fifo_lockfail="@, d.capture_fifo_lock_fail as nat);
    let t5 = t4 + " fifo_lockfail="@ + decimal(d.capture_fifo_lock_fail as nat);
    lemma_read_field(t5, ") render(cb="@, d.render_callback_count as nat);
    let t6 = t5 + ") render(cb="@ + decimal(d.render_callback_count as nat);
    lemma_read_field(t6, " pulled="@, d.render_samples_pulled as nat);
    let t7 = t6 + " pulled="@ + decimal(d.render_samples_pulled as nat);
    lemma_read_field(t7, " lockfail="@, d.render_lock_fail as nat);
    let t8 = t7 + " lockfail="@ + decimal(d.render_lock_fail as nat);
    lemma_read_field(t8, ") playback_lvl="@, d.playback_level as nat);
    let t9 = t8 + ") playback_lvl="@ + decimal(d.playback_level as nat);
    lemma_read_field(t9, " engine(hw="@, d.engine_hw_rate as nat);
    let t10 = t9 + " engine(hw="@ + decimal(d.engine_hw_rate as nat);
    lemma_read_field(t10, "Hz pb="@, d.engine_pb_rate as nat);
    let t11 = t10 + "Hz pb="@ + decimal(d.engine_pb_rate as nat);
    lemma_read_field(t11, "Hz ratio="@, d.engine_upsample_ratio as nat);
    let t12 = t11 + "Hz ratio="@ + decimal(d.engine_upsample_ratio as nat);
    lemma_read_words(t12, " running="@);
    let t13 = t12 + " running="@;
    lemma_read_words(t13, flag_word(d.engine_running));
    let t14 = t13 + flag_word(d.engine_running);
    lemma_read_field(t14, " builds="@, d.engine_build_count as nat);
    let t15 = t14 + " builds="@ + decimal(d.engine_build_count as nat);
    lemma_read_words(t15, ")"@);
    assert(d.line() == t15 + ")"@);
    assert(numbers_in(none).found =~= Seq::<nat>::empty());
}

} // verus!
