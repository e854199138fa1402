//! The data types of the outline extractor and their mathematical models.
//!
//! All sizes and confidence scores are integers in hundredths (a font
//! size of 12.5 points is 1250, a confidence of 0.9 is 90), so that the
//! threshold comparisons of the classifiers are exact.

use vstd::prelude::*;

verus! {

/// Rank of a heading.
#[derive(Clone, Copy, PartialEq, Eq, Structural, Debug)]
pub enum Level {
    H1,
    H2,
    H3,
    H4,
}

impl Level {
    /// The serialized name of the rank.
    pub open spec fn spec_code(self) -> Seq<char> {
        match self {
            Level::H1 => "H1"@,
            Level::H2 => "H2"@,
            Level::H3 => "H3"@,
            Level::H4 => "H4"@,
        }
    }

    pub fn code(&self) -> (r: &'static str)
        ensures
            r@ == self.spec_code(),
    {
        match self {
            Level::H1 => "H1",
            Level::H2 => "H2",
            Level::H3 => "H3",
            Level::H4 => "H4",
        }
    }
}

/// One heading of an outline.
#[derive(Debug, Clone)]
pub struct Heading {
    pub level: Level,
    pub text: String,
    pub page: usize,
}

/// Mathematical model of a heading.
pub struct HeadingModel {
    pub level: Level,
    pub text: Seq<char>,
    pub page: int,
}

impl View for Heading {
    type V = HeadingModel;

    open spec fn view(&self) -> HeadingModel {
        HeadingModel { level: self.level, text: self.text@, page: self.page as int }
    }
}

impl PartialEq for Heading {
    fn eq(&self, other: &Self) -> (r: bool) {
        self.level == other.level && self.text == other.text && self.page == other.page
    }
}

impl vstd::std_specs::cmp::PartialEqSpecImpl for Heading {
    open spec fn obeys_eq_spec() -> bool {
        true
    }

    open spec fn eq_spec(&self, other: &Self) -> bool {
        self@ == other@
    }
}

pub open spec fn heading_models(hs: Seq<Heading>) -> Seq<HeadingModel> {
    hs.map_values(|h: Heading| h@)
}

/// The extracted outline: a title and the ordered list of headings.
#[derive(Debug, Clone)]
pub struct Outline {
    pub title: String,
    pub outline: Vec<Heading>,
}

/// Mathematical model of an outline.
pub struct OutlineModel {
    pub title: Seq<char>,
    pub outline: Seq<HeadingModel>,
}

impl View for Outline {
    type V = OutlineModel;

    open spec fn view(&self) -> OutlineModel {
        OutlineModel { title: self.title@, outline: heading_models(self.outline@) }
    }
}

/// One shown text string together with the font state under which it
/// was shown. `size` is the font size in hundredths of a point.
#[derive(Debug, Clone)]
pub struct TextRun {
    pub text: String,
    pub size: u32,
    pub page: usize,
    pub font_name: String,
    pub is_bold: bool,
    pub is_italic: bool,
}

/// Mathematical model of a text run.
pub struct TextRunModel {
    pub text: Seq<char>,
    pub size: u32,
    pub page: int,
    pub font_name: Seq<char>,
    pub is_bold: bool,
    pub is_italic: bool,
}

impl View for TextRun {
    type V = TextRunModel;

    open spec fn view(&self) -> TextRunModel {
        TextRunModel {
            text: self.text@,
            size: self.size,
            page: self.page as int,
            font_name: self.font_name@,
            is_bold: self.is_bold,
            is_italic: self.is_italic,
        }
    }
}

pub open spec fn run_models(rs: Seq<TextRun>) -> Seq<TextRunModel> {
    rs.map_values(|r: TextRun| r@)
}

/// A heading candidate of the font-metric path. `confidence` is in
/// hundredths (0.9 is 90).
#[derive(Debug, Clone)]
pub struct HeadingCandidate {
    pub text: String,
    pub level: Level,
    pub page: usize,
    pub confidence: u32,
}

/// Mathematical model of a heading candidate.
pub struct CandidateModel {
    pub text: Seq<char>,
    pub level: Level,
    pub page: int,
    pub confidence: u32,
}

impl View for HeadingCandidate {
    type V = CandidateModel;

    open spec fn view(&self) -> CandidateModel {
        CandidateModel {
            text: self.text@,
            level: self.level,
            page: self.page as int,
            confidence: self.confidence,
        }
    }
}

pub open spec fn candidate_models(cs: Seq<HeadingCandidate>) -> Seq<CandidateModel> {
    cs.map_values(|c: HeadingCandidate| c@)
}

/// Font state carried by the run builder while it walks one page's
/// operations: the current font name and size (hundredths of a point).
pub struct FontState {
    pub name: Seq<char>,
    pub size: u32,
}

/// One decoded operand of a content-stream operation, reduced to the
/// plain values the run builder reads. Numeric operands are in
/// hundredths; string and name operands keep their raw bytes.
#[derive(Debug)]
pub enum PdfObj {
    Name(Vec<u8>),
    Number(u32),
    Text(Vec<u8>),
    Array(Vec<PdfObj>),
    Other,
}

/// One decoded content-stream operation: an operator and its operands.
#[derive(Debug)]
pub struct PdfOp {
    pub operator: String,
    pub operands: Vec<PdfObj>,
}

} // verus!
