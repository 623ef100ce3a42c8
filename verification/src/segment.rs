//! One line of an interchange: its raw decomposition and its typed reading.
use crate::text::{same_text, split, split_is_not_empty, split_on, strs_view, trim_end, without_trailing};
use vstd::prelude::*;

verus! {

/// The typed reading of one line. The fields are the texts found at the
/// positions that the segment's kind fixes.
#[derive(Debug, Clone, Copy, PartialEq, Eq)]
pub enum Segment<'a> {
    /// Interchange header: sender, receiver, interchange identifier.
    UNB(&'a str, &'a str, &'a str),
    /// Document open.
    UNH,
    /// Document type code and document number.
    BGM(&'a str, &'a str),
    /// Date qualifier and date.
    DTM(&'a str, &'a str),
    /// Party qualifier and party identifier.
    NAD(&'a str, &'a str),
    /// Line number and article.
    LIN(&'a str, &'a str),
    /// Quantity qualifier, quantity and unit.
    QTY(&'a str, &'a str, &'a str),
    /// Amount qualifier and amount.
    MOA(&'a str, &'a str),
    /// Control qualifier and control value.
    CNT(&'a str, &'a str),
    /// Currency.
    CUX(&'a str),
    /// Document close.
    UNT,
    /// Interchange trailer.
    UNZ,
    /// Any other tag, kept as it was read.
    Unknown(&'a str),
}

/// What a [`Segment`] holds.
pub enum SegmentView {
    UNB(Seq<char>, Seq<char>, Seq<char>),
    UNH,
    BGM(Seq<char>, Seq<char>),
    DTM(Seq<char>, Seq<char>),
    NAD(Seq<char>, Seq<char>),
    LIN(Seq<char>, Seq<char>),
    QTY(Seq<char>, Seq<char>, Seq<char>),
    MOA(Seq<char>, Seq<char>),
    CNT(Seq<char>, Seq<char>),
    CUX(Seq<char>),
    UNT,
    UNZ,
    Unknown(Seq<char>),
}

impl<'a> View for Segment<'a> {
    type V = SegmentView;

    open spec fn view(&self) -> SegmentView {
        match self {
            Segment::UNB(a, b, c) => SegmentView::UNB(a@, b@, c@),
            Segment::UNH => SegmentView::UNH,
            Segment::BGM(a, b) => SegmentView::BGM(a@, b@),
            Segment::DTM(a, b) => SegmentView::DTM(a@, b@),
            Segment::NAD(a, b) => SegmentView::NAD(a@, b@),
            Segment::LIN(a, b) => SegmentView::LIN(a@, b@),
            Segment::QTY(a, b, c) => SegmentView::QTY(a@, b@, c@),
            Segment::MOA(a, b) => SegmentView::MOA(a@, b@),
            Segment::CNT(a, b) => SegmentView::CNT(a@, b@),
            Segment::CUX(a) => SegmentView::CUX(a@),
            Segment::UNT => SegmentView::UNT,
            Segment::UNZ => SegmentView::UNZ,
            Segment::Unknown(a) => SegmentView::Unknown(a@),
        }
    }
}

/// The text of a segment that is to be read as a number: the quantity of a
/// quantity segment, the amount of an amount segment.
pub open spec fn numeric_text(segment: SegmentView) -> Option<Seq<char>> {
    match segment {
        SegmentView::QTY(_, quantity, _) => Some(quantity),
        SegmentView::MOA(_, amount) => Some(amount),
        _ => None,
    }
}

impl<'a> Segment<'a> {
    /// The text of this segment that is to be read as a number, if it has one.
    pub fn numeric_text(&self) -> (r: Option<&'a str>)
        ensures
            match r {
                Some(text) => numeric_text(self@) == Some(text@),
                None => numeric_text(self@) is None,
            },
    {
        match self {
            Segment::QTY(_, quantity, _) => Some(*quantity),
            Segment::MOA(_, amount) => Some(*amount),
            _ => None,
        }
    }
}

/// The place of an element that a segment needs and its line lacks: the
/// group, counted from the tag's group as 0, and the element within it.
#[derive(Debug, Clone, Copy, PartialEq, Eq, Structural)]
pub struct MissingElement {
    pub group: usize,
    pub element: usize,
}

/// The raw decomposition of a line: the line without the quotes at its end,
/// cut at every `+` into groups, each group cut at every `:` into elements.
pub open spec fn segment_groups(line: Seq<char>) -> Seq<Seq<Seq<char>>> {
    let groups = split(without_trailing(line, '\''), '+');
    Seq::new(groups.len(), |g: int| split(groups[g], ':'))
}

/// What a raw decomposition holds.
pub open spec fn groups_view(groups: Seq<Vec<&str>>) -> Seq<Seq<Seq<char>>> {
    Seq::new(groups.len(), |g: int| strs_view(groups[g]@))
}

/// The element at a place, or the empty text where the line has none there.
pub open spec fn element_or_empty(groups: Seq<Seq<Seq<char>>>, g: int, e: int) -> Seq<char> {
    if 0 <= g < groups.len() && 0 <= e < groups[g].len() {
        groups[g][e]
    } else {
        Seq::empty()
    }
}

/// Whether a segment with this tag cannot be read without the second group.
pub open spec fn needs_second_group(tag: Seq<char>) -> bool {
    tag == "DTM"@ || tag == "NAD"@ || needs_two_elements(tag)
}

/// Whether a segment with this tag cannot be read without two elements in
/// its second group.
pub open spec fn needs_two_elements(tag: Seq<char>) -> bool {
    tag == "QTY"@ || tag == "MOA"@ || tag == "CNT"@
}

/// The first element that the reading of a decomposition needs and does not
/// find, if there is one.
pub open spec fn missing_element(groups: Seq<Seq<Seq<char>>>) -> Option<MissingElement> {
    let tag = element_or_empty(groups, 0, 0);
    if needs_second_group(tag) && groups.len() < 2 {
        Some(MissingElement { group: 1, element: 0 })
    } else if needs_two_elements(tag) && groups[1].len() < 2 {
        Some(MissingElement { group: 1, element: 1 })
    } else {
        None
    }
}

/// The typed reading of a decomposition, every absent element read as the
/// empty text.
pub open spec fn reading(groups: Seq<Seq<Seq<char>>>) -> SegmentView {
    let tag = element_or_empty(groups, 0, 0);
    if tag == "UNB"@ {
        SegmentView::UNB(
            element_or_empty(groups, 2, 0),
            element_or_empty(groups, 3, 0),
            element_or_empty(groups, 5, 0),
        )
    } else if tag == "UNH"@ {
        SegmentView::UNH
    } else if tag == "BGM"@ {
        SegmentView::BGM(element_or_empty(groups, 1, 0), element_or_empty(groups, 2, 0))
    } else if tag == "DTM"@ {
        SegmentView::DTM(element_or_empty(groups, 1, 0), element_or_empty(groups, 1, 1))
    } else if tag == "NAD"@ {
        SegmentView::NAD(element_or_empty(groups, 1, 0), element_or_empty(groups, 2, 0))
    } else if tag == "LIN"@ {
        SegmentView::LIN(element_or_empty(groups, 1, 0), element_or_empty(groups, 3, 0))
    } else if tag == "QTY"@ {
        SegmentView::QTY(
            element_or_empty(groups, 1, 0),
            element_or_empty(groups, 1, 1),
            element_or_empty(groups, 1, 2),
        )
    } else if tag == "MOA"@ {
        SegmentView::MOA(element_or_empty(groups, 1, 0), element_or_empty(groups, 1, 1))
    } else if tag == "CNT"@ {
        SegmentView::CNT(element_or_empty(groups, 1, 0), element_or_empty(groups, 1, 1))
    } else if tag == "CUX"@ {
        SegmentView::CUX(element_or_empty(groups, 1, 1))
    } else if tag == "UNT"@ {
        SegmentView::UNT
    } else if tag == "UNZ"@ {
        SegmentView::UNZ
    } else {
        SegmentView::Unknown(tag)
    }
}

/// The typed reading of a line, or the element that it lacks.
pub open spec fn segment_of(line: Seq<char>) -> Result<SegmentView, MissingElement> {
    match missing_element(segment_groups(line)) {
        Some(missing) => Err(missing),
        None => Ok(reading(segment_groups(line))),
    }
}

/// Every line has a first group, and every group a first element.
pub proof fn groups_are_not_empty(line: Seq<char>)
    ensures
        segment_groups(line).len() >= 1,
        forall|g: int|
            0 <= g < segment_groups(line).len() ==> (#[trigger] segment_groups(line)[g]).len() >= 1,
{
    let groups = split(without_trailing(line, '\''), '+');
    split_is_not_empty(without_trailing(line, '\''), '+');
    assert forall|g: int| 0 <= g < segment_groups(line).len() implies (#[trigger] segment_groups(
        line,
    )[g]).len() >= 1 by {
        split_is_not_empty(groups[g], ':');
    }
}

/// Whether `s` is the three characters `a`, `b`, `c`.
pub open spec fn spells(s: Seq<char>, a: char, b: char, c: char) -> bool {
    s.len() == 3 && s[0] == a && s[1] == b && s[2] == c
}

/// The tags are what they read, so no two of them are the same text.
pub proof fn tags_are_spelled()
    ensures
        spells("UNB"@, 'U', 'N', 'B'),
        spells("UNH"@, 'U', 'N', 'H'),
        spells("BGM"@, 'B', 'G', 'M'),
        spells("DTM"@, 'D', 'T', 'M'),
        spells("NAD"@, 'N', 'A', 'D'),
        spells("LIN"@, 'L', 'I', 'N'),
        spells("QTY"@, 'Q', 'T', 'Y'),
        spells("MOA"@, 'M', 'O', 'A'),
        spells("CNT"@, 'C', 'N', 'T'),
        spells("CUX"@, 'C', 'U', 'X'),
        spells("UNT"@, 'U', 'N', 'T'),
        spells("UNZ"@, 'U', 'N', 'Z'),
{
    reveal_strlit("UNB");
    reveal_strlit("UNH");
    reveal_strlit("BGM");
    reveal_strlit("DTM");
    reveal_strlit("NAD");
    reveal_strlit("LIN");
    reveal_strlit("QTY");
    reveal_strlit("MOA");
    reveal_strlit("CNT");
    reveal_strlit("CUX");
    reveal_strlit("UNT");
    reveal_strlit("UNZ");
}

/// Cuts a line into its groups and elements.
pub fn tokenize_segment(segment: &str) -> (r: Vec<Vec<&str>>)
    ensures
        groups_view(r@) == segment_groups(segment@),
        r.len() >= 1,
        forall|g: int| 0 <= g < r.len() ==> (#[trigger] r@[g]).len() >= 1,
{
    let body = trim_end(segment, '\'');
    let parts = split_on(body, '+');
    let mut out: Vec<Vec<&str>> = Vec::new();
    let mut i: usize = 0;
    while i < parts.len()
        invariant
            i <= parts.len(),
            out.len() == i,
            strs_view(parts@) == split(without_trailing(segment@, '\''), '+'),
            forall|g: int| 0 <= g < i ==> strs_view((#[trigger] out@[g])@) == split(parts@[g]@, ':'),
            forall|g: int| 0 <= g < i ==> (#[trigger] out@[g]).len() >= 1,
        decreases parts.len() - i,
    {
        let elements = split_on(parts[i], ':');
        out.push(elements);
        i += 1;
    }
    proof {
        let want = segment_groups(segment@);
        let have = groups_view(out@);
        assert(have.len() == want.len());
        assert forall|g: int| 0 <= g < have.len() implies have[g] == want[g] by {
            assert(strs_view(parts@)[g] == parts@[g]@);
        }
        assert(have =~= want);
    }
    out
}

/// The element at a place, or the empty text.
fn element_at<'a>(groups: &Vec<Vec<&'a str>>, g: usize, e: usize) -> (r: &'a str)
    ensures
        r@ == element_or_empty(groups_view(groups@), g as int, e as int),
{
    if g < groups.len() && e < groups[g].len() {
        groups[g][e]
    } else {
        proof {
            reveal_strlit("");
        }
        ""
    }
}

/// Reads a line as a segment. A line that lacks an element which its
/// segment cannot do without is not read: the answer names the first such
/// element. Any other absent element is read as the empty text.
pub fn try_parse_segment<'a>(raw: &'a str) -> (r: Result<Segment<'a>, MissingElement>)
    ensures
        match r {
            Ok(segment) => segment_of(raw@) == Ok::<SegmentView, MissingElement>(segment@),
            Err(missing) => segment_of(raw@) == Err::<SegmentView, MissingElement>(missing),
        },
{
    let tokens = tokenize_segment(raw);
    let tag = element_at(&tokens, 0, 0);
    let ghost groups = groups_view(tokens@);
    proof {
        tags_are_spelled();
    }
    if same_text(tag, "UNB") {
        Ok(Segment::UNB(element_at(&tokens, 2, 0), element_at(&tokens, 3, 0), element_at(&tokens, 5, 0)))
    } else if same_text(tag, "UNH") {
        Ok(Segment::UNH)
    } else if same_text(tag, "BGM") {
        Ok(Segment::BGM(element_at(&tokens, 1, 0), element_at(&tokens, 2, 0)))
    } else if same_text(tag, "DTM") {
        if tokens.len() < 2 {
            return Err(MissingElement { group: 1, element: 0 });
        }
        Ok(Segment::DTM(element_at(&tokens, 1, 0), element_at(&tokens, 1, 1)))
    } else if same_text(tag, "NAD") {
        if tokens.len() < 2 {
            return Err(MissingElement { group: 1, element: 0 });
        }
        Ok(Segment::NAD(element_at(&tokens, 1, 0), element_at(&tokens, 2, 0)))
    } else if same_text(tag, "LIN") {
        Ok(Segment::LIN(element_at(&tokens, 1, 0), element_at(&tokens, 3, 0)))
    } else if same_text(tag, "QTY") || same_text(tag, "MOA") || same_text(tag, "CNT") {
        if tokens.len() < 2 {
            return Err(MissingElement { group: 1, element: 0 });
        }
        assert(groups[1].len() == tokens@[1].len());
        if tokens[1].len() < 2 {
            return Err(MissingElement { group: 1, element: 1 });
        }
        let first = element_at(&tokens, 1, 0);
        let second = element_at(&tokens, 1, 1);
        if same_text(tag, "QTY") {
            Ok(Segment::QTY(first, second, element_at(&tokens, 1, 2)))
        } else if same_text(tag, "MOA") {
            Ok(Segment::MOA(first, second))
        } else {
            Ok(Segment::CNT(first, second))
        }
    } else if same_text(tag, "CUX") {
        Ok(Segment::CUX(element_at(&tokens, 1, 1)))
    } else if same_text(tag, "UNT") {
        Ok(Segment::UNT)
    } else if same_text(tag, "UNZ") {
        Ok(Segment::UNZ)
    } else {
        Ok(Segment::Unknown(tag))
    }
}

/// Reads a line that lacks no element which its segment needs.
pub fn parse_segment<'a>(raw: &'a str) -> (r: Segment<'a>)
    requires
        segment_of(raw@) is Ok,
    ensures
        segment_of(raw@) == Ok::<SegmentView, MissingElement>(r@),
{
    match try_parse_segment(raw) {
        Ok(segment) => segment,
        Err(_) => vstd::pervasive::unreached(),
    }
}

} // verus!
