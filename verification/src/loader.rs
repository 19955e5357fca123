//! Loading: from program text to the instructions and the label table.
//!
//! The text is read line by line. A blank line counts for nothing. A line with
//! a colon declares the label before its first colon; what follows the colon,
//! if anything, is an instruction on the same line. Any other line is an
//! instruction. A label stands for the index of the next instruction that the
//! text adds to the program, on its own line or on a later one.

use vstd::prelude::*;
use vstd::string::*;
use crate::error::LoadError;
use crate::program::{LabelTable, Program};
use crate::text::{
    find,
    find_char,
    lemma_trim_idempotent,
    pieces,
    split,
    split_ranges,
    to_chars,
    trim,
    trim_range,
};

verus! {

/// What has been loaded from the lines read so far.
pub struct Image {
    /// The instructions, in order.
    pub program: Seq<Seq<char>>,
    /// The index that each label stands for.
    pub labels: Map<Seq<char>, nat>,
    /// The number of lines read that were not blank.
    pub lines: nat,
}

/// The image before any line is read.
pub open spec fn empty_image() -> Image {
    Image { program: Seq::empty(), labels: Map::empty(), lines: 0 }
}

/// Whether `line` declares a label: it holds a colon.
pub open spec fn declares_label(line: Seq<char>) -> bool {
    find(trim(line), ':') < trim(line).len()
}

/// The name of the label that `line` declares: what stands before its first
/// colon, trimmed.
pub open spec fn label_part(line: Seq<char>) -> Seq<char> {
    trim(trim(line).take(find(trim(line), ':') as int))
}

/// What follows the first colon of `line`, trimmed: the instruction that
/// stands on the line of the label, or nothing.
pub open spec fn remainder(line: Seq<char>) -> Seq<char> {
    trim(trim(line).skip(find(trim(line), ':') as int + 1))
}

/// The image after `line` is read into `image`, or the number of `line` among
/// the lines that are not blank where it declares a label without a name.
pub open spec fn load_line(image: Image, line: Seq<char>) -> Result<Image, nat> {
    let next = image.program.len();
    let lines = image.lines + 1;
    if trim(line).len() == 0 {
        Ok(image)
    } else if !declares_label(line) {
        Ok(Image { program: image.program.push(trim(line)), lines, ..image })
    } else if label_part(line).len() == 0 {
        Err(lines)
    } else if remainder(line).len() == 0 {
        Ok(Image { labels: image.labels.insert(label_part(line), next), lines, ..image })
    } else {
        Ok(
            Image {
                program: image.program.push(remainder(line)),
                labels: image.labels.insert(label_part(line), next),
                lines,
            },
        )
    }
}

/// The image after `lines` are read in order, or the number of the first line
/// that declares a label without a name.
pub open spec fn load_lines(lines: Seq<Seq<char>>) -> Result<Image, nat>
    decreases lines.len(),
{
    if lines.len() == 0 {
        Ok(empty_image())
    } else {
        match load_lines(lines.drop_last()) {
            Ok(image) => load_line(image, lines.last()),
            Err(line) => Err(line),
        }
    }
}

/// The image that `text` loads to: its lines are the pieces between line
/// feeds.
pub open spec fn load_text(text: Seq<char>) -> Result<Image, nat> {
    load_lines(split(text, '\n'))
}

/// A failure at one line is the failure of every text that goes on from it.
pub proof fn lemma_load_failure_stays(lines: Seq<Seq<char>>, k: int)
    requires
        0 <= k <= lines.len(),
        load_lines(lines.take(k)) is Err,
    ensures
        load_lines(lines) == load_lines(lines.take(k)),
    decreases lines.len() - k,
{
    if k < lines.len() {
        assert(lines.take(k + 1).drop_last() =~= lines.take(k));
        lemma_load_failure_stays(lines, k + 1);
    } else {
        assert(lines.take(k) =~= lines);
    }
}

/// What holds of every image that lines load to: every instruction and every
/// label name is trimmed and not empty, and every label stands for the index
/// of an instruction or for the end of the program.
pub open spec fn image_wf(image: Image) -> bool {
    &&& image.program.len() <= image.lines
    &&& forall|i: int|
        0 <= i < image.program.len() ==> (#[trigger] image.program[i]).len() > 0 && trim(
            image.program[i],
        ) == image.program[i]
    &&& forall|name: Seq<char>| #[trigger]
        image.labels.contains_key(name) ==> name.len() > 0 && trim(name) == name
            && image.labels[name] <= image.program.len()
}

/// Reading a line keeps an image well formed.
pub proof fn lemma_load_line_wf(image: Image, line: Seq<char>)
    requires
        image_wf(image),
    ensures
        load_line(image, line) matches Ok(after) ==> image_wf(after),
{
    lemma_trim_idempotent(line);
    lemma_trim_idempotent(trim(line).take(find(trim(line), ':') as int));
    lemma_trim_idempotent(trim(line).skip(find(trim(line), ':') as int + 1));
}

/// Every image that lines load to is well formed.
pub proof fn lemma_load_lines_wf(lines: Seq<Seq<char>>)
    ensures
        load_lines(lines) matches Ok(image) ==> image_wf(image),
    decreases lines.len(),
{
    if lines.len() > 0 {
        lemma_load_lines_wf(lines.drop_last());
        if let Ok(image) = load_lines(lines.drop_last()) {
            lemma_load_line_wf(image, lines.last());
        }
    }
}

/// Lines that are all blank load to no instruction and no label.
pub proof fn lemma_blank_lines_load_nothing(lines: Seq<Seq<char>>)
    requires
        forall|k: int| 0 <= k < lines.len() ==> (#[trigger] trim(lines[k])).len() == 0,
    ensures
        load_lines(lines) == Ok::<Image, nat>(empty_image()),
    decreases lines.len(),
{
    if lines.len() > 0 {
        lemma_blank_lines_load_nothing(lines.drop_last());
    }
}

/// Text whose lines are all blank loads to no instruction and no label.
pub proof fn lemma_blank_text_loads_nothing(text: Seq<char>)
    requires
        forall|k: int|
            0 <= k < split(text, '\n').len() ==> (#[trigger] trim(split(text, '\n')[k])).len()
                == 0,
    ensures
        load_text(text) == Ok::<Image, nat>(empty_image()),
{
    lemma_blank_lines_load_nothing(split(text, '\n'));
}

/// A label on a line of its own stands for the index of the next instruction:
/// after the line is read, that is the length of the program so far. Where
/// no instruction follows, the label stands for the end of the program.
pub proof fn lemma_label_alone(image: Image, line: Seq<char>)
    requires
        declares_label(line),
        label_part(line).len() > 0,
        remainder(line).len() == 0,
    ensures
        load_line(image, line) matches Ok(after) && after.program == image.program
            && after.labels.contains_key(label_part(line)) && after.labels[label_part(line)]
            == after.program.len(),
{
}

/// Loads `text`: the program and the label table that its lines give, or the
/// first line that declares a label without a name.
pub fn load(text: &str) -> (r: Result<(Program, LabelTable), LoadError>)
    ensures
        match load_text(text@) {
            Ok(image) => r matches Ok(loaded) && loaded.0@ == image.program && loaded.1@
                == image.labels,
            Err(number) => r matches Err(LoadError::EmptyLabel { line }) && line == number,
        },
        r matches Ok(loaded) ==> forall|name: Seq<char>| #[trigger]
            loaded.1@.contains_key(name) ==> loaded.1@[name] <= loaded.0@.len(),
{
    let chars = to_chars(text);
    let ranges = split_ranges(&chars, 0, chars.len(), '\n');
    let ghost lines = split(text@, '\n');
    assert(chars@.subrange(0, chars.len() as int) =~= text@);
    let mut program = Program::new();
    let mut labels = LabelTable::new();
    let mut seen: usize = 0;
    let mut k: usize = 0;
    while k < ranges.len()
        invariant
            k <= ranges.len(),
            chars@ == text@,
            lines == split(text@, '\n'),
            lines == pieces(chars@, ranges@),
            forall|i: int| 0 <= i < ranges.len() ==> (#[trigger] ranges[i]).0 <= ranges[i].1
                <= chars.len(),
            seen <= k,
            load_lines(lines.take(k as int)) == Ok::<Image, nat>(
                Image { program: program@, labels: labels@, lines: seen as nat },
            ),
        decreases ranges.len() - k,
    {
        let (lo, hi) = ranges[k];
        let ghost line = trim(lines[k as int]);
        assert(lines.take(k + 1).drop_last() =~= lines.take(k as int));
        let (a, b) = trim_range(&chars, lo, hi);
        if a < b {
            seen += 1;
            let colon = find_char(&chars, a, b, ':');
            assert(line.take(colon - a) =~= chars@.subrange(a as int, colon as int));
            if colon < b {
                assert(line.skip(colon - a + 1) =~= chars@.subrange(colon + 1, b as int));
                let (la, lb) = trim_range(&chars, a, colon);
                let (ra, rb) = trim_range(&chars, colon + 1, b);
                if la == lb {
                    proof {
                        lemma_load_failure_stays(lines, k + 1);
                    }
                    return Err(LoadError::EmptyLabel { line: seen });
                }
                labels.insert(text.substring_char(la, lb).to_owned(), program.len());
                if ra < rb {
                    program.push(text.substring_char(ra, rb).to_owned());
                }
            } else {
                program.push(text.substring_char(a, b).to_owned());
            }
        }
        k += 1;
    }
    proof {
        assert(lines.take(k as int) =~= lines);
        lemma_load_lines_wf(lines);
    }
    Ok((program, labels))
}

} // verus!
