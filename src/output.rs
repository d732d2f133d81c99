//! What the runner prints: colours of concurrently running shell steps, the
//! alignment of their output lines, output lines and trace lines.

use vstd::prelude::*;
use vstd::string::*;
use vstd::utf8::encode_utf8;
use crate::sanitize::{sanitize_string, sanitized};

verus! {

/// The text of one decimal digit.
pub open spec fn digit_text(d: int) -> Seq<char> {
    if d == 0 {
        "0"@
    } else if d == 1 {
        "1"@
    } else if d == 2 {
        "2"@
    } else if d == 3 {
        "3"@
    } else if d == 4 {
        "4"@
    } else if d == 5 {
        "5"@
    } else if d == 6 {
        "6"@
    } else if d == 7 {
        "7"@
    } else if d == 8 {
        "8"@
    } else {
        "9"@
    }
}

/// A number below 100 written with two digits.
pub open spec fn two_digits(n: int) -> Seq<char> {
    digit_text(n / 10) + digit_text(n % 10)
}

fn append_digit(out: &mut String, d: u32)
    requires
        d < 10,
    ensures
        final(out)@ == old(out)@ + digit_text(d as int),
{
    if d == 0 {
        out.append("0");
    } else if d == 1 {
        out.append("1");
    } else if d == 2 {
        out.append("2");
    } else if d == 3 {
        out.append("3");
    } else if d == 4 {
        out.append("4");
    } else if d == 5 {
        out.append("5");
    } else if d == 6 {
        out.append("6");
    } else if d == 7 {
        out.append("7");
    } else if d == 8 {
        out.append("8");
    } else {
        out.append("9");
    }
}

fn append_two_digits(out: &mut String, n: u32)
    requires
        n < 100,
    ensures
        final(out)@ == old(out)@ + two_digits(n as int),
{
    append_digit(out, n / 10);
    append_digit(out, n % 10);
}

/// The number of colours that shell steps cycle through.
pub const PALETTE_SIZE: u32 = 7;

/// The terminal colour code of a colour slot: 31 to 37.
pub open spec fn color_code(slot: u32) -> int {
    31 + slot % 7
}

/// The control sequence that selects the colour of a slot.
pub open spec fn color_sequence(slot: u32) -> Seq<char> {
    "\x1b[0;"@ + two_digits(color_code(slot)) + "m"@
}

/// The control sequence that selects the colour of a colour slot.
pub fn color_for(slot: u32) -> (r: String)
    ensures
        r@ == color_sequence(slot),
{
    let mut r = String::from_str("\x1b[0;");
    append_two_digits(&mut r, 31 + slot % PALETTE_SIZE);
    r.append("m");
    r
}

/// The shared bookkeeping of a run: a counter that gives each starting shell
/// step its colour slot, and the widest label seen so far.
pub struct Registry {
    pub counter: u32,
    pub watermark: usize,
}

/// The padding of a line whose label is `width` wide, under `watermark`.
pub open spec fn padding_of(watermark: int, width: int) -> int {
    if watermark > width {
        watermark - width
    } else {
        0
    }
}

/// The watermark after labels of widths `widths` were registered in turn.
pub open spec fn watermark_after(start: int, widths: Seq<usize>) -> int
    decreases widths.len(),
{
    if widths.len() == 0 {
        start
    } else {
        let w = watermark_after(start, widths.drop_last());
        if widths.last() > w {
            widths.last() as int
        } else {
            w
        }
    }
}

/// The width of the label of a task: the bytes of its name in UTF-8, and
/// the colon.
pub open spec fn label_width_of(name: Seq<char>) -> int {
    encode_utf8(name).len() + 1int
}

impl Registry {
    /// The bookkeeping at the start of a run: the first slot is 1, no label
    /// seen yet.
    pub fn new() -> (r: Registry)
        ensures
            r.counter == 1,
            r.watermark == 0,
    {
        Registry { counter: 1, watermark: 0 }
    }

    /// Takes a colour slot for a starting shell step: the counter's value,
    /// which then advances by one (wrapping).
    pub fn acquire(&mut self) -> (slot: u32)
        ensures
            slot == old(self).counter,
            final(self).counter == after_acquire(old(self).counter),
            final(self).watermark == old(self).watermark,
    {
        let slot = self.counter;
        self.counter = if slot == u32::MAX {
            0
        } else {
            slot + 1
        };
        slot
    }

    /// Gives back a colour slot when a shell step ends: the counter goes
    /// back by one (wrapping).
    pub fn release(&mut self)
        ensures
            final(self).counter == after_release(old(self).counter),
            final(self).watermark == old(self).watermark,
    {
        self.counter = if self.counter == 0 {
            u32::MAX
        } else {
            self.counter - 1
        };
    }

    /// Registers a label width: the watermark becomes the larger of the two.
    pub fn widen(&mut self, width: usize)
        ensures
            final(self).watermark == (if width > old(self).watermark {
                width
            } else {
                old(self).watermark
            }),
            final(self).counter == old(self).counter,
    {
        if width > self.watermark {
            self.watermark = width;
        }
    }

    /// The spaces that align a line whose label is `width` wide.
    pub fn padding(&self, width: usize) -> (r: usize)
        ensures
            r == padding_of(self.watermark as int, width as int),
    {
        if self.watermark > width {
            self.watermark - width
        } else {
            0
        }
    }
}


impl Registry {
    /// Starts a shell step of the task `label`: takes its colour slot and,
    /// where its output is captured and shown (neither raw nor quiet),
    /// registers the width of its label. Returns the colour sequence.
    pub fn start_shell(&mut self, label: &String, quiet: bool, raw: bool) -> (color: String)
        requires
            encode_utf8(label@).len() < usize::MAX,
        ensures
            color@ == color_sequence(old(self).counter),
            final(self).counter == after_acquire(old(self).counter),
            final(self).watermark == (if !raw && !quiet && label_width_of(label@) > old(
                self,
            ).watermark {
                label_width_of(label@)
            } else {
                old(self).watermark as int
            }),
    {
        let slot = self.acquire();
        if !raw && !quiet {
            self.widen(label_width(label));
        }
        color_for(slot)
    }

    /// One captured line of the task `label` as printed: sanitized, and
    /// aligned under the present watermark.
    pub fn shell_line(&self, time: &String, color: &String, label: &String, line: String) -> (r:
        String)
        requires
            encode_utf8(label@).len() < usize::MAX,
        ensures
            r@ == output_line_of(
                time@,
                color@,
                label@,
                padding_of(self.watermark as int, label_width_of(label@)) as nat,
                sanitized(line@),
            ),
    {
        let padding = self.padding(label_width(label));
        let clean = sanitize_string(line);
        output_line(time, color, label, padding, &clean)
    }
}

/// The width of the label of the task named `name`.
pub fn label_width(name: &String) -> (r: usize)
    requires
        encode_utf8(name@).len() < usize::MAX,
    ensures
        r == label_width_of(name@),
{
    name.as_str().len() + 1
}

/// `n` spaces.
pub open spec fn spaces(n: nat) -> Seq<char>
    decreases n,
{
    if n == 0 {
        Seq::empty()
    } else {
        spaces((n - 1) as nat) + " "@
    }
}

/// One captured line as printed: the time prefix, the label in its colour,
/// a colon, the padding, a space and the line.
pub open spec fn output_line_of(
    time: Seq<char>,
    color: Seq<char>,
    label: Seq<char>,
    padding: nat,
    line: Seq<char>,
) -> Seq<char> {
    time + color + label + ":\x1b[0m"@ + spaces(padding) + " "@ + line
}

/// One captured line as printed.
pub fn output_line(time: &String, color: &String, label: &String, padding: usize, line: &String) -> (r:
    String)
    ensures
        r@ == output_line_of(time@, color@, label@, padding as nat, line@),
{
    let mut r = time.clone();
    r.append(color.as_str());
    r.append(label.as_str());
    r.append(":\x1b[0m");
    let mut k: usize = 0;
    while k < padding
        invariant
            k <= padding,
            r@ == time@ + color@ + label@ + ":\x1b[0m"@ + spaces(k as nat),
        decreases padding - k,
    {
        r.append(" ");
        k = k + 1;
    }
    r.append(" ");
    r.append(line.as_str());
    r
}

/// A time of day as printed: hours, minutes and seconds, two digits each.
pub open spec fn clock_text(h: int, m: int, s: int) -> Seq<char> {
    two_digits(h) + ":"@ + two_digits(m) + ":"@ + two_digits(s)
}

/// A time of day as printed.
pub fn format_clock(h: u32, m: u32, s: u32) -> (r: String)
    requires
        h < 24,
        m < 60,
        s < 60,
    ensures
        r@ == clock_text(h as int, m as int, s as int),
{
    let mut r = String::new();
    append_two_digits(&mut r, h);
    r.append(":");
    append_two_digits(&mut r, m);
    r.append(":");
    append_two_digits(&mut r, s);
    r
}

/// The prefix of a printed line: the time of day `h:m:s` and a space where
/// timestamps are on, else nothing.
pub fn time_prefix(timestamp: bool, h: u32, m: u32, s: u32) -> (r: String)
    requires
        timestamp ==> h < 24 && m < 60 && s < 60,
    ensures
        !timestamp ==> r@ == Seq::<char>::empty(),
        timestamp ==> r@ == clock_text(h as int, m as int, s as int) + " "@,
{
    if timestamp {
        let mut r = format_clock(h, m, s);
        r.append(" ");
        r
    } else {
        String::new()
    }
}

/// The line printed when a task starts.
pub open spec fn entry_trace_of(time: Seq<char>, breadcrumb: Seq<char>) -> Seq<char> {
    time + "> "@ + breadcrumb
}

/// The line printed when a task has finished.
pub open spec fn finish_trace_of(time: Seq<char>, breadcrumb: Seq<char>) -> Seq<char> {
    time + "finished "@ + breadcrumb
}

/// The line printed when a task starts.
pub fn entry_trace(time: &String, breadcrumb: &String) -> (r: String)
    ensures
        r@ == entry_trace_of(time@, breadcrumb@),
{
    let mut r = time.clone();
    r.append("> ");
    r.append(breadcrumb.as_str());
    r
}

/// The line printed when a task has finished.
pub fn finish_trace(time: &String, breadcrumb: &String) -> (r: String)
    ensures
        r@ == finish_trace_of(time@, breadcrumb@),
{
    let mut r = time.clone();
    r.append("finished ");
    r.append(breadcrumb.as_str());
    r
}

/// Registering labels never lowers the watermark, so the padding of a label
/// of a given width after more registrations is at least its padding after
/// fewer.
pub proof fn alignment_monotone(start: int, widths: Seq<usize>, i: int, j: int, width: int)
    requires
        0 <= i <= j <= widths.len(),
    ensures
        watermark_after(start, widths.take(i)) <= watermark_after(start, widths.take(j)),
        padding_of(watermark_after(start, widths.take(i)), width) <= padding_of(
            watermark_after(start, widths.take(j)),
            width,
        ),
    decreases j - i,
{
    if i < j {
        alignment_monotone(start, widths, i, j - 1, width);
        assert(widths.take(j).drop_last() =~= widths.take(j - 1));
    }
}

/// The counter after a colour slot is taken.
pub open spec fn after_acquire(counter: u32) -> u32 {
    if counter == u32::MAX {
        0
    } else {
        (counter + 1) as u32
    }
}

/// The counter after a colour slot is given back.
pub open spec fn after_release(counter: u32) -> u32 {
    if counter == 0 {
        u32::MAX
    } else {
        (counter - 1) as u32
    }
}

/// A shell step that takes its slot and gives it back leaves the counter
/// as it found it, so the next step that starts gets the same colour.
pub proof fn slot_given_back(counter: u32)
    ensures
        after_release(after_acquire(counter)) == counter,
        color_sequence(after_release(after_acquire(counter))) == color_sequence(counter),
{
}

/// Up to seven shell steps whose colour slots were taken one after another
/// (consecutive counter values) all get different colours.
pub proof fn colors_distinct(first: u32, n: int, i: int, j: int)
    requires
        n <= PALETTE_SIZE,
        0 <= i < n,
        0 <= j < n,
        i != j,
        first + n <= u32::MAX + 1,
    ensures
        color_code((first + i) as u32) != color_code((first + j) as u32),
{
    let a = (first + i) as u32;
    let b = (first + j) as u32;
    assert(a as int == first + i);
    assert(b as int == first + j);
    assert((first + i) % 7 != (first + j) % 7) by (nonlinear_arith)
        requires
            0 <= i < 7,
            0 <= j < 7,
            i != j,
            first >= 0,
    ;
}

} // verus!
