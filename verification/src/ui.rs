//! The attributes of elements that are read from text: lengths, positions,
//! regions, fonts and styles.

use crate::error::{agrees, agrees_option, agrees_plain, fail, failure, Error, ErrorKind, ErrorView};
use crate::number::integer_of;
use crate::text::{starts_with, words};
use vstd::prelude::*;

verus! {

/// The failure that `text` is no value of the attribute.
pub open spec fn invalid(text: Seq<char>, doc: Seq<char>) -> ErrorView {
    failure(ErrorKind::TypeMismatch, text, doc, 0)
}

fn invalid_text<T>(text: &str, doc_id: &str) -> (r: Result<T, Error>)
    ensures
        r is Err,
        r->Err_0@ == invalid(text@, doc_id@),
{
    fail(ErrorKind::TypeMismatch, text, doc_id, 0)
}

/// What follows the first `n` characters of `s`.
pub open spec fn after(s: Seq<char>, n: nat) -> Seq<char> {
    s.subrange(n as int, s.len() as int)
}

/// What follows `prefix` in `s`, where `s` starts with it.
fn strip<'a>(s: &'a str, prefix: &str) -> (r: Option<&'a str>)
    ensures
        match r {
            Some(rest) => starts_with(s@, prefix@) && rest@ == after(s@, prefix@.len()),
            None => !starts_with(s@, prefix@),
        },
{
    if crate::text::starts_with_str(s, prefix) {
        let n: usize = s.unicode_len();
        let m: usize = prefix.unicode_len();
        Some(s.substring_char(m, n))
    } else {
        None
    }
}

#[derive(Debug, PartialEq)]
#[allow(inconsistent_fields)]
pub enum Length {
    Fill,
    Shrink,
    Auto,
    FitContent,
    Px { value: i64 },
    Portion { value: i64 },
    Percent { value: i64 },
    Calc { value: String },
    VH { value: i64 },
    VW { value: i64 },
}

#[allow(inconsistent_fields)]
pub enum LengthView {
    Fill,
    Shrink,
    Auto,
    FitContent,
    Px { value: i64 },
    Portion { value: i64 },
    Percent { value: i64 },
    Calc { value: Seq<char> },
    VH { value: i64 },
    VW { value: i64 },
}

impl View for Length {
    type V = LengthView;

    open spec fn view(&self) -> LengthView {
        match self {
            Length::Fill => LengthView::Fill,
            Length::Shrink => LengthView::Shrink,
            Length::Auto => LengthView::Auto,
            Length::FitContent => LengthView::FitContent,
            Length::Px { value } => LengthView::Px { value: *value },
            Length::Portion { value } => LengthView::Portion { value: *value },
            Length::Percent { value } => LengthView::Percent { value: *value },
            Length::Calc { value } => LengthView::Calc { value: value@ },
            Length::VH { value } => LengthView::VH { value: *value },
            Length::VW { value } => LengthView::VW { value: *value },
        }
    }
}

/// The unit of a length that is written as a word and a number.
#[derive(Debug, Clone, Copy, PartialEq, Eq, Structural)]
pub enum Unit {
    Px,
    Portion,
    Percent,
    VH,
    VW,
}

pub open spec fn measured(unit: Unit, value: i64) -> LengthView {
    match unit {
        Unit::Px => LengthView::Px { value },
        Unit::Portion => LengthView::Portion { value },
        Unit::Percent => LengthView::Percent { value },
        Unit::VH => LengthView::VH { value },
        Unit::VW => LengthView::VW { value },
    }
}

/// The length of `unit` that the number `text` gives.
pub open spec fn number_length(unit: Unit, text: Seq<char>, doc: Seq<char>) -> Result<
    Option<LengthView>,
    ErrorView,
> {
    match integer_of(text) {
        Some(value) => Ok(Some(measured(unit, value))),
        None => Err(invalid(text, doc)),
    }
}

/// The length that `l` denotes: one of the words `fill`, `shrink`, `auto`
/// and `fit-content`; `calc` and an expression; `portion`, `percent`, `vh`
/// or `vw` and a whole number; or a whole number of pixels.
pub open spec fn length_of(l: Option<Seq<char>>, doc: Seq<char>) -> Result<
    Option<LengthView>,
    ErrorView,
> {
    match l {
        None => Ok(None),
        Some(l) => if l == "fill"@ {
            Ok(Some(LengthView::Fill))
        } else if l == "shrink"@ {
            Ok(Some(LengthView::Shrink))
        } else if l == "auto"@ {
            Ok(Some(LengthView::Auto))
        } else if starts_with(l, "calc "@) {
            Ok(Some(LengthView::Calc { value: after(l, "calc "@.len()) }))
        } else if l == "fit-content"@ {
            Ok(Some(LengthView::FitContent))
        } else if starts_with(l, "portion "@) {
            number_length(Unit::Portion, after(l, "portion "@.len()), doc)
        } else if starts_with(l, "percent "@) {
            number_length(Unit::Percent, after(l, "percent "@.len()), doc)
        } else if starts_with(l, "vh "@) {
            number_length(Unit::VH, after(l, "vh "@.len()), doc)
        } else if starts_with(l, "vw "@) {
            number_length(Unit::VW, after(l, "vw "@.len()), doc)
        } else {
            number_length(Unit::Px, l, doc)
        },
    }
}

fn number_length_of(unit: Unit, text: &str, doc_id: &str) -> (r: Result<Option<Length>, Error>)
    ensures
        agrees_option(r, number_length(unit, text@, doc_id@)),
{
    match crate::number::parse_integer(text) {
        Some(value) => Ok(
            Some(
                match unit {
                    Unit::Px => Length::Px { value },
                    Unit::Portion => Length::Portion { value },
                    Unit::Percent => Length::Percent { value },
                    Unit::VH => Length::VH { value },
                    Unit::VW => Length::VW { value },
                },
            ),
        ),
        None => invalid_text(text, doc_id),
    }
}

impl Length {
    /// The length that `l` denotes.
    pub fn from(l: Option<String>, doc_id: &str) -> (r: Result<Option<Length>, Error>)
        ensures
            agrees_option(r, length_of(crate::kind::text_view(l), doc_id@)),
    {
        let l = match l {
            Some(l) => l,
            None => {
                return Ok(None);
            },
        };
        let s = l.as_str();
        if crate::text::str_eq(s, "fill") {
            return Ok(Some(Length::Fill));
        }
        if crate::text::str_eq(s, "shrink") {
            return Ok(Some(Length::Shrink));
        }
        if crate::text::str_eq(s, "auto") {
            return Ok(Some(Length::Auto));
        }
        if let Some(rest) = strip(s, "calc ") {
            return Ok(Some(Length::Calc { value: rest.to_owned() }));
        }
        if crate::text::str_eq(s, "fit-content") {
            return Ok(Some(Length::FitContent));
        }
        if let Some(rest) = strip(s, "portion ") {
            return number_length_of(Unit::Portion, rest, doc_id);
        }
        if let Some(rest) = strip(s, "percent ") {
            return number_length_of(Unit::Percent, rest, doc_id);
        }
        if let Some(rest) = strip(s, "vh ") {
            return number_length_of(Unit::VH, rest, doc_id);
        }
        if let Some(rest) = strip(s, "vw ") {
            return number_length_of(Unit::VW, rest, doc_id);
        }
        number_length_of(Unit::Px, s, doc_id)
    }
}

#[derive(Debug, Clone, Copy, PartialEq, Eq, Structural)]
pub enum Position {
    Center,
    Top,
    Bottom,
    Left,
    Right,
    TopLeft,
    TopRight,
    BottomLeft,
    BottomRight,
}

impl Default for Position {
    fn default() -> (r: Position)
        ensures
            r == Position::TopLeft,
    {
        Position::TopLeft
    }
}

pub open spec fn position_of(l: Option<Seq<char>>, doc: Seq<char>) -> Result<Position, ErrorView> {
    match l {
        None => Ok(Position::TopLeft),
        Some(t) => if t == "center"@ {
            Ok(Position::Center)
        } else if t == "top"@ {
            Ok(Position::Top)
        } else if t == "bottom"@ {
            Ok(Position::Bottom)
        } else if t == "left"@ {
            Ok(Position::Left)
        } else if t == "right"@ {
            Ok(Position::Right)
        } else if t == "top-left"@ {
            Ok(Position::TopLeft)
        } else if t == "top-right"@ {
            Ok(Position::TopRight)
        } else if t == "bottom-left"@ {
            Ok(Position::BottomLeft)
        } else if t == "bottom-right"@ {
            Ok(Position::BottomRight)
        } else {
            Err(invalid(t, doc))
        },
    }
}

impl Position {
    /// The position that `l` denotes; the top left corner where nothing is
    /// given.
    pub fn from(l: Option<String>, doc_id: &str) -> (r: Result<Position, Error>)
        ensures
            agrees_plain(r, position_of(crate::kind::text_view(l), doc_id@)),
    {
        let l = match l {
            Some(l) => l,
            None => {
                return Ok(Position::TopLeft);
            },
        };
        let t = l.as_str();
        if crate::text::str_eq(t, "center") {
            Ok(Position::Center)
        } else if crate::text::str_eq(t, "top") {
            Ok(Position::Top)
        } else if crate::text::str_eq(t, "bottom") {
            Ok(Position::Bottom)
        } else if crate::text::str_eq(t, "left") {
            Ok(Position::Left)
        } else if crate::text::str_eq(t, "right") {
            Ok(Position::Right)
        } else if crate::text::str_eq(t, "top-left") {
            Ok(Position::TopLeft)
        } else if crate::text::str_eq(t, "top-right") {
            Ok(Position::TopRight)
        } else if crate::text::str_eq(t, "bottom-left") {
            Ok(Position::BottomLeft)
        } else if crate::text::str_eq(t, "bottom-right") {
            Ok(Position::BottomRight)
        } else {
            invalid_text(t, doc_id)
        }
    }
}

/// The role of a container in the outline of a page: a heading, from `H0`,
/// the highest, down to `H7`, or a landmark.
#[derive(Debug, Clone, Copy, PartialEq, Eq, Structural)]
pub enum Region {
    H0,
    H1,
    H2,
    H3,
    H4,
    H5,
    H6,
    H7,
    Title,
    MainContent,
    Navigation,
    Aside,
    Footer,
    Description,
    Announce,
    AnnounceUrgently,
}

pub open spec fn region_of(l: Option<Seq<char>>, doc: Seq<char>) -> Result<Option<Region>, ErrorView> {
    match l {
        None => Ok(None),
        Some(t) => if t == "h0"@ {
            Ok(Some(Region::H0))
        } else if t == "h1"@ {
            Ok(Some(Region::H1))
        } else if t == "h2"@ {
            Ok(Some(Region::H2))
        } else if t == "h3"@ {
            Ok(Some(Region::H3))
        } else if t == "h4"@ {
            Ok(Some(Region::H4))
        } else if t == "h5"@ {
            Ok(Some(Region::H5))
        } else if t == "h6"@ {
            Ok(Some(Region::H6))
        } else if t == "h7"@ {
            Ok(Some(Region::H7))
        } else if t == "title"@ {
            Ok(Some(Region::Title))
        } else if t == "main"@ {
            Ok(Some(Region::MainContent))
        } else if t == "navigation"@ {
            Ok(Some(Region::Navigation))
        } else if t == "aside"@ {
            Ok(Some(Region::Aside))
        } else if t == "footer"@ {
            Ok(Some(Region::Footer))
        } else if t == "description"@ {
            Ok(Some(Region::Description))
        } else if t == "announce"@ {
            Ok(Some(Region::Announce))
        } else if t == "announce-urgently"@ {
            Ok(Some(Region::AnnounceUrgently))
        } else {
            Err(invalid(t, doc))
        },
    }
}

impl Region {
    /// The region as it is written.
    pub open spec fn text(self) -> Seq<char> {
        match self {
            Region::H0 => "h0"@,
            Region::H1 => "h1"@,
            Region::H2 => "h2"@,
            Region::H3 => "h3"@,
            Region::H4 => "h4"@,
            Region::H5 => "h5"@,
            Region::H6 => "h6"@,
            Region::H7 => "h7"@,
            Region::Title => "title"@,
            Region::MainContent => "main"@,
            Region::Navigation => "navigation"@,
            Region::Aside => "aside"@,
            Region::Footer => "footer"@,
            Region::Description => "description"@,
            Region::Announce => "announce"@,
            Region::AnnounceUrgently => "announce-urgently"@,
        }
    }

    /// The number of a heading, `0` for `H0` up to `7` for `H7`; landmarks
    /// have none.
    pub open spec fn level(self) -> Option<nat> {
        match self {
            Region::H0 => Some(0),
            Region::H1 => Some(1),
            Region::H2 => Some(2),
            Region::H3 => Some(3),
            Region::H4 => Some(4),
            Region::H5 => Some(5),
            Region::H6 => Some(6),
            Region::H7 => Some(7),
            _ => None,
        }
    }

    pub open spec fn spec_is_heading(self) -> bool {
        self.level() is Some
    }

    /// The headings of lower priority than this one, from `H7` upwards; none
    /// for a landmark.
    pub open spec fn lower_priority(self) -> Seq<Region> {
        match self {
            Region::H0 => seq![
                Region::H7,
                Region::H6,
                Region::H5,
                Region::H4,
                Region::H3,
                Region::H2,
                Region::H1,
            ],
            Region::H1 => seq![
                Region::H7,
                Region::H6,
                Region::H5,
                Region::H4,
                Region::H3,
                Region::H2,
            ],
            Region::H2 => seq![Region::H7, Region::H6, Region::H5, Region::H4, Region::H3],
            Region::H3 => seq![Region::H7, Region::H6, Region::H5, Region::H4],
            Region::H4 => seq![Region::H7, Region::H6, Region::H5],
            Region::H5 => seq![Region::H7, Region::H6],
            Region::H6 => seq![Region::H7],
            _ => Seq::empty(),
        }
    }

    /// The region as it is written.
    pub fn to_string(&self) -> (r: String)
        ensures
            r@ == self.text(),
    {
        match self {
            Region::H0 => "h0",
            Region::H1 => "h1",
            Region::H2 => "h2",
            Region::H3 => "h3",
            Region::H4 => "h4",
            Region::H5 => "h5",
            Region::H6 => "h6",
            Region::H7 => "h7",
            Region::Title => "title",
            Region::MainContent => "main",
            Region::Navigation => "navigation",
            Region::Aside => "aside",
            Region::Footer => "footer",
            Region::Description => "description",
            Region::Announce => "announce",
            Region::AnnounceUrgently => "announce-urgently",
        }.to_owned()
    }

    /// The region that `l` denotes.
    pub fn from(l: Option<String>, doc_id: &str) -> (r: Result<Option<Region>, Error>)
        ensures
            agrees_plain(r, region_of(crate::kind::text_view(l), doc_id@)),
    {
        let l = match l {
            Some(l) => l,
            None => {
                return Ok(None);
            },
        };
        let t = l.as_str();
        if crate::text::str_eq(t, "h0") {
            Ok(Some(Region::H0))
        } else if crate::text::str_eq(t, "h1") {
            Ok(Some(Region::H1))
        } else if crate::text::str_eq(t, "h2") {
            Ok(Some(Region::H2))
        } else if crate::text::str_eq(t, "h3") {
            Ok(Some(Region::H3))
        } else if crate::text::str_eq(t, "h4") {
            Ok(Some(Region::H4))
        } else if crate::text::str_eq(t, "h5") {
            Ok(Some(Region::H5))
        } else if crate::text::str_eq(t, "h6") {
            Ok(Some(Region::H6))
        } else if crate::text::str_eq(t, "h7") {
            Ok(Some(Region::H7))
        } else if crate::text::str_eq(t, "title") {
            Ok(Some(Region::Title))
        } else if crate::text::str_eq(t, "main") {
            Ok(Some(Region::MainContent))
        } else if crate::text::str_eq(t, "navigation") {
            Ok(Some(Region::Navigation))
        } else if crate::text::str_eq(t, "aside") {
            Ok(Some(Region::Aside))
        } else if crate::text::str_eq(t, "footer") {
            Ok(Some(Region::Footer))
        } else if crate::text::str_eq(t, "description") {
            Ok(Some(Region::Description))
        } else if crate::text::str_eq(t, "announce") {
            Ok(Some(Region::Announce))
        } else if crate::text::str_eq(t, "announce-urgently") {
            Ok(Some(Region::AnnounceUrgently))
        } else {
            invalid_text(t, doc_id)
        }
    }

    /// Whether the region is a heading.
    pub fn is_heading(&self) -> (r: bool)
        ensures
            r == self.spec_is_heading(),
    {
        match self {
            Region::H0
            | Region::H1
            | Region::H2
            | Region::H3
            | Region::H4
            | Region::H5
            | Region::H6
            | Region::H7 => true,
            _ => false,
        }
    }

    /// Whether the region is one of the two highest headings.
    pub fn is_primary_heading(&self) -> (r: bool)
        ensures
            r == (*self == Region::H0 || *self == Region::H1),
    {
        match self {
            Region::H0 | Region::H1 => true,
            _ => false,
        }
    }

    /// Whether the region is the title.
    pub fn is_title(&self) -> (r: bool)
        ensures
            r == (*self == Region::Title),
    {
        match self {
            Region::Title => true,
            _ => false,
        }
    }

    /// The headings of lower priority than this one, from `H7` upwards.
    pub fn get_lower_priority_heading(&self) -> (r: Vec<Region>)
        ensures
            r@ == self.lower_priority(),
    {
        let mut list: Vec<Region> = Vec::new();
        if !self.is_heading() {
            return list;
        }
        let all: [Region; 7] = [
            Region::H7,
            Region::H6,
            Region::H5,
            Region::H4,
            Region::H3,
            Region::H2,
            Region::H1,
        ];
        let mut i: usize = 0;
        while i < 7
            invariant
                i <= 7,
                self.spec_is_heading(),
                all@ == seq![
                    Region::H7,
                    Region::H6,
                    Region::H5,
                    Region::H4,
                    Region::H3,
                    Region::H2,
                    Region::H1,
                ],
                list@ == all@.subrange(0, i as int),
                forall|j: int| 0 <= j < i ==> all@[j] != *self,
            decreases 7 - i,
        {
            if *self == all[i] {
                assert(list@ =~= self.lower_priority());
                return list;
            }
            list.push(all[i]);
            assert(list@ =~= all@.subrange(0, i + 1));
            i += 1;
        }
        assert(list@ =~= self.lower_priority());
        list
    }
}

/// A heading's lower-priority headings are those with a greater number.
pub proof fn lemma_lower_priority(a: Region, b: Region)
    ensures
        a.lower_priority().contains(b) <==> (a.level() is Some && b.level() is Some && a.level()->0
            < b.level()->0),
{
    let s = a.lower_priority();
    if a.level() is Some && b.level() is Some && a.level()->0 < b.level()->0 {
        let i = 7 - b.level()->0;
        assert(s[i] == b);
    }
    if s.contains(b) {
        let i = choose|i: int| 0 <= i < s.len() && s[i] == b;
        assert(s[i] == b);
    }
}

#[derive(Debug, Clone, Copy, PartialEq, Eq, Structural)]
pub enum Overflow {
    Hidden,
    Visible,
    Auto,
    Scroll,
}

pub open spec fn overflow_of(l: Option<Seq<char>>, doc: Seq<char>) -> Result<
    Option<Overflow>,
    ErrorView,
> {
    match l {
        None => Ok(None),
        Some(t) => if t == "hidden"@ {
            Ok(Some(Overflow::Hidden))
        } else if t == "visible"@ {
            Ok(Some(Overflow::Visible))
        } else if t == "auto"@ {
            Ok(Some(Overflow::Auto))
        } else if t == "scroll"@ {
            Ok(Some(Overflow::Scroll))
        } else {
            Err(invalid(t, doc))
        },
    }
}

impl Overflow {
    /// What is to happen with what does not fit, as `l` says.
    pub fn from(l: Option<String>, doc_id: &str) -> (r: Result<Option<Overflow>, Error>)
        ensures
            agrees_plain(r, overflow_of(crate::kind::text_view(l), doc_id@)),
    {
        let l = match l {
            Some(l) => l,
            None => {
                return Ok(None);
            },
        };
        let t = l.as_str();
        if crate::text::str_eq(t, "hidden") {
            Ok(Some(Overflow::Hidden))
        } else if crate::text::str_eq(t, "visible") {
            Ok(Some(Overflow::Visible))
        } else if crate::text::str_eq(t, "auto") {
            Ok(Some(Overflow::Auto))
        } else if crate::text::str_eq(t, "scroll") {
            Ok(Some(Overflow::Scroll))
        } else {
            invalid_text(t, doc_id)
        }
    }
}

#[derive(Debug, Clone, Copy, PartialEq, Eq, Structural)]
pub enum Anchor {
    Window,
    Parent,
}

pub open spec fn anchor_of(l: Option<Seq<char>>, doc: Seq<char>) -> Result<Option<Anchor>, ErrorView> {
    match l {
        None => Ok(None),
        Some(t) => if t == "window"@ {
            Ok(Some(Anchor::Window))
        } else if t == "parent"@ {
            Ok(Some(Anchor::Parent))
        } else {
            Err(invalid(t, doc))
        },
    }
}

impl Anchor {
    /// What the element is anchored to, as `l` says.
    pub fn from(l: Option<String>, doc_id: &str) -> (r: Result<Option<Anchor>, Error>)
        ensures
            agrees_plain(r, anchor_of(crate::kind::text_view(l), doc_id@)),
    {
        let l = match l {
            Some(l) => l,
            None => {
                return Ok(None);
            },
        };
        let t = l.as_str();
        if crate::text::str_eq(t, "window") {
            Ok(Some(Anchor::Window))
        } else if crate::text::str_eq(t, "parent") {
            Ok(Some(Anchor::Parent))
        } else {
            invalid_text(t, doc_id)
        }
    }

    /// The positioning that the anchor asks for.
    pub fn to_postion(&self) -> (r: String)
        ensures
            r@ == (match self {
                Anchor::Window => "fixed"@,
                Anchor::Parent => "absolute"@,
            }),
    {
        match self {
            Anchor::Window => "fixed",
            Anchor::Parent => "absolute",
        }.to_owned()
    }
}

#[derive(Debug, Clone, Copy, PartialEq, Eq, Structural)]
pub enum GradientDirection {
    BottomToTop,
    TopToBottom,
    RightToLeft,
    LeftToRight,
    BottomRightToTopLeft,
    BottomLeftToTopRight,
    TopRightToBottomLeft,
    TopLeftBottomRight,
    Center,
    Angle { value: i64 },
}

/// The direction that `l` denotes; a text that is none of the directions,
/// and no angle, denotes none.
pub open spec fn gradient_direction_of(l: Option<Seq<char>>, doc: Seq<char>) -> Result<
    Option<GradientDirection>,
    ErrorView,
> {
    match l {
        None => Ok(None),
        Some(l) => if l == "bottom to top"@ {
            Ok(Some(GradientDirection::BottomToTop))
        } else if l == "top to bottom"@ {
            Ok(Some(GradientDirection::TopToBottom))
        } else if l == "right to left"@ {
            Ok(Some(GradientDirection::RightToLeft))
        } else if l == "left to right"@ {
            Ok(Some(GradientDirection::LeftToRight))
        } else if l == "bottom-left to top-right"@ {
            Ok(Some(GradientDirection::BottomLeftToTopRight))
        } else if l == "bottom-right to top-left"@ {
            Ok(Some(GradientDirection::BottomRightToTopLeft))
        } else if l == "top-right to bottom-left"@ {
            Ok(Some(GradientDirection::TopRightToBottomLeft))
        } else if l == "top-left to bottom-right"@ {
            Ok(Some(GradientDirection::TopLeftBottomRight))
        } else if l == "center"@ {
            Ok(Some(GradientDirection::Center))
        } else if starts_with(l, "angle "@) {
            match integer_of(after(l, "angle "@.len())) {
                Some(value) => Ok(Some(GradientDirection::Angle { value })),
                None => Err(invalid(after(l, "angle "@.len()), doc)),
            }
        } else {
            Ok(None)
        },
    }
}

impl GradientDirection {
    /// The direction of a gradient that `l` denotes.
    pub fn from(l: Option<String>, doc_id: &str) -> (r: Result<Option<GradientDirection>, Error>)
        ensures
            agrees_plain(r, gradient_direction_of(crate::kind::text_view(l), doc_id@)),
    {
        let l = match l {
            Some(l) => l,
            None => {
                return Ok(None);
            },
        };
        let t = l.as_str();
        if crate::text::str_eq(t, "bottom to top") {
            Ok(Some(GradientDirection::BottomToTop))
        } else if crate::text::str_eq(t, "top to bottom") {
            Ok(Some(GradientDirection::TopToBottom))
        } else if crate::text::str_eq(t, "right to left") {
            Ok(Some(GradientDirection::RightToLeft))
        } else if crate::text::str_eq(t, "left to right") {
            Ok(Some(GradientDirection::LeftToRight))
        } else if crate::text::str_eq(t, "bottom-left to top-right") {
            Ok(Some(GradientDirection::BottomLeftToTopRight))
        } else if crate::text::str_eq(t, "bottom-right to top-left") {
            Ok(Some(GradientDirection::BottomRightToTopLeft))
        } else if crate::text::str_eq(t, "top-right to bottom-left") {
            Ok(Some(GradientDirection::TopRightToBottomLeft))
        } else if crate::text::str_eq(t, "top-left to bottom-right") {
            Ok(Some(GradientDirection::TopLeftBottomRight))
        } else if crate::text::str_eq(t, "center") {
            Ok(Some(GradientDirection::Center))
        } else if let Some(rest) = strip(t, "angle ") {
            match crate::number::parse_integer(rest) {
                Some(value) => Ok(Some(GradientDirection::Angle { value })),
                None => invalid_text(rest, doc_id),
            }
        } else {
            Ok(None)
        }
    }
}

#[derive(Debug, PartialEq)]
pub enum Spacing {
    SpaceEvenly,
    SpaceBetween,
    SpaceAround,
    Absolute { value: String },
}

pub enum SpacingView {
    SpaceEvenly,
    SpaceBetween,
    SpaceAround,
    Absolute { value: Seq<char> },
}

impl View for Spacing {
    type V = SpacingView;

    open spec fn view(&self) -> SpacingView {
        match self {
            Spacing::SpaceEvenly => SpacingView::SpaceEvenly,
            Spacing::SpaceBetween => SpacingView::SpaceBetween,
            Spacing::SpaceAround => SpacingView::SpaceAround,
            Spacing::Absolute { value } => SpacingView::Absolute { value: value@ },
        }
    }
}

pub open spec fn spacing_of(l: Option<Seq<char>>) -> Option<SpacingView> {
    match l {
        None => None,
        Some(t) => if t == "space-evenly"@ {
            Some(SpacingView::SpaceEvenly)
        } else if t == "space-between"@ {
            Some(SpacingView::SpaceBetween)
        } else if t == "space-around"@ {
            Some(SpacingView::SpaceAround)
        } else {
            Some(SpacingView::Absolute { value: t })
        },
    }
}

impl Spacing {
    /// The spacing that `l` denotes: one of three words, or any other text as
    /// it stands.
    pub fn from(l: Option<String>) -> (r: Result<Option<Spacing>, Error>)
        ensures
            r is Ok,
            crate::duplicate::option_view(r->Ok_0) == spacing_of(crate::kind::text_view(l)),
    {
        let l = match l {
            Some(l) => l,
            None => {
                return Ok(None);
            },
        };
        if crate::text::str_eq(l.as_str(), "space-evenly") {
            Ok(Some(Spacing::SpaceEvenly))
        } else if crate::text::str_eq(l.as_str(), "space-between") {
            Ok(Some(Spacing::SpaceBetween))
        } else if crate::text::str_eq(l.as_str(), "space-around") {
            Ok(Some(Spacing::SpaceAround))
        } else {
            Ok(Some(Spacing::Absolute { value: l }))
        }
    }
}

#[derive(Debug, Clone, Copy, PartialEq, Eq, Structural)]
pub enum TextAlign {
    Left,
    Right,
    Center,
    Justify,
}

impl Default for TextAlign {
    fn default() -> (r: TextAlign)
        ensures
            r == TextAlign::Left,
    {
        TextAlign::Left
    }
}

pub open spec fn text_align_of(l: Option<Seq<char>>, doc: Seq<char>) -> Result<TextAlign, ErrorView> {
    match l {
        None => Ok(TextAlign::Left),
        Some(t) => if t == "center"@ {
            Ok(TextAlign::Center)
        } else if t == "left"@ {
            Ok(TextAlign::Left)
        } else if t == "right"@ {
            Ok(TextAlign::Right)
        } else if t == "justify"@ {
            Ok(TextAlign::Justify)
        } else {
            Err(invalid(t, doc))
        },
    }
}

impl TextAlign {
    /// The alignment that `l` denotes; to the left where nothing is given.
    pub fn from(l: Option<String>, doc_id: &str) -> (r: Result<TextAlign, Error>)
        ensures
            agrees_plain(r, text_align_of(crate::kind::text_view(l), doc_id@)),
    {
        let l = match l {
            Some(l) => l,
            None => {
                return Ok(TextAlign::Left);
            },
        };
        let t = l.as_str();
        if crate::text::str_eq(t, "center") {
            Ok(TextAlign::Center)
        } else if crate::text::str_eq(t, "left") {
            Ok(TextAlign::Left)
        } else if crate::text::str_eq(t, "right") {
            Ok(TextAlign::Right)
        } else if crate::text::str_eq(t, "justify") {
            Ok(TextAlign::Justify)
        } else {
            invalid_text(t, doc_id)
        }
    }
}

#[derive(Debug, Clone, Copy, PartialEq, Eq, Structural)]
pub enum FontDisplay {
    Swap,
    Block,
}

impl Default for FontDisplay {
    fn default() -> (r: FontDisplay)
        ensures
            r == FontDisplay::Block,
    {
        FontDisplay::Block
    }
}

pub open spec fn font_display_of(l: Option<Seq<char>>, doc: Seq<char>) -> Result<
    FontDisplay,
    ErrorView,
> {
    match l {
        None => Ok(FontDisplay::Block),
        Some(t) => if t == "swap"@ {
            Ok(FontDisplay::Swap)
        } else if t == "block"@ {
            Ok(FontDisplay::Block)
        } else {
            Err(invalid(t, doc))
        },
    }
}

impl FontDisplay {
    /// How a font is shown while it loads, as `l` says.
    pub fn from(l: Option<String>, doc_id: &str) -> (r: Result<FontDisplay, Error>)
        ensures
            agrees_plain(r, font_display_of(crate::kind::text_view(l), doc_id@)),
    {
        let l = match l {
            Some(l) => l,
            None => {
                return Ok(FontDisplay::Block);
            },
        };
        let t = l.as_str();
        if crate::text::str_eq(t, "swap") {
            Ok(FontDisplay::Swap)
        } else if crate::text::str_eq(t, "block") {
            Ok(FontDisplay::Block)
        } else {
            invalid_text(t, doc_id)
        }
    }
}

#[derive(Debug, PartialEq)]
pub enum NamedFont {
    Monospace,
    Serif,
    SansSerif,
    Named { value: String },
}

pub enum NamedFontView {
    Monospace,
    Serif,
    SansSerif,
    Named { value: Seq<char> },
}

impl View for NamedFont {
    type V = NamedFontView;

    open spec fn view(&self) -> NamedFontView {
        match self {
            NamedFont::Monospace => NamedFontView::Monospace,
            NamedFont::Serif => NamedFontView::Serif,
            NamedFont::SansSerif => NamedFontView::SansSerif,
            NamedFont::Named { value } => NamedFontView::Named { value: value@ },
        }
    }
}

pub open spec fn named_font_of(l: Option<Seq<char>>) -> NamedFontView {
    match l {
        None => NamedFontView::Serif,
        Some(t) => if t == "monospace"@ {
            NamedFontView::Monospace
        } else if t == "serif"@ {
            NamedFontView::Serif
        } else if t == "sansSerif"@ {
            NamedFontView::SansSerif
        } else {
            NamedFontView::Named { value: t }
        },
    }
}

impl NamedFont {
    /// The font that `l` names; a serif font where nothing is given.
    pub fn from(l: Option<String>) -> (r: Result<NamedFont, Error>)
        ensures
            r is Ok,
            r->Ok_0@ == named_font_of(crate::kind::text_view(l)),
    {
        let l = match l {
            Some(l) => l,
            None => {
                return Ok(NamedFont::Serif);
            },
        };
        if crate::text::str_eq(l.as_str(), "monospace") {
            Ok(NamedFont::Monospace)
        } else if crate::text::str_eq(l.as_str(), "serif") {
            Ok(NamedFont::Serif)
        } else if crate::text::str_eq(l.as_str(), "sansSerif") {
            Ok(NamedFont::SansSerif)
        } else {
            Ok(NamedFont::Named { value: l })
        }
    }
}

#[derive(Debug, PartialEq)]
pub struct ExternalFont {
    pub url: String,
    pub name: String,
    pub display: FontDisplay,
}

#[derive(Debug, Clone, Copy, PartialEq, Eq, Structural)]
pub enum Weight {
    Heavy,
    ExtraBold,
    Bold,
    SemiBold,
    Medium,
    Regular,
    Light,
    ExtraLight,
    HairLine,
}

impl Default for Weight {
    fn default() -> (r: Weight)
        ensures
            r == Weight::Regular,
    {
        Weight::Regular
    }
}

#[derive(Debug, Clone, Copy, PartialEq, Eq, Structural)]
pub struct Style {
    pub italic: bool,
    pub underline: bool,
    pub strike: bool,
    pub weight: Weight,
}

impl Default for Style {
    fn default() -> (r: Style)
        ensures
            r == Style::plain(),
    {
        Style { italic: false, underline: false, strike: false, weight: Weight::Regular }
    }
}

/// The style after the word `word`, or nothing where it is no word of style.
pub open spec fn styled(s: Style, word: Seq<char>) -> Option<Style> {
    if word == "italic"@ {
        Some(Style { italic: true, ..s })
    } else if word == "underline"@ {
        Some(Style { underline: true, ..s })
    } else if word == "strike"@ {
        Some(Style { strike: true, ..s })
    } else if word == "heavy"@ {
        Some(Style { weight: Weight::Heavy, ..s })
    } else if word == "extra-bold"@ {
        Some(Style { weight: Weight::ExtraBold, ..s })
    } else if word == "bold"@ {
        Some(Style { weight: Weight::Bold, ..s })
    } else if word == "semi-bold"@ {
        Some(Style { weight: Weight::SemiBold, ..s })
    } else if word == "medium"@ {
        Some(Style { weight: Weight::Medium, ..s })
    } else if word == "regular"@ {
        Some(Style { weight: Weight::Regular, ..s })
    } else if word == "light"@ {
        Some(Style { weight: Weight::Light, ..s })
    } else if word == "extra-light"@ {
        Some(Style { weight: Weight::ExtraLight, ..s })
    } else if word == "hairline"@ {
        Some(Style { weight: Weight::HairLine, ..s })
    } else {
        None
    }
}

/// The style after the words from index `i` on, each in its turn; the first
/// that is no word of style fails the whole.
pub open spec fn style_from(parts: Seq<Seq<char>>, i: int, s: Style, doc: Seq<char>) -> Result<
    Style,
    ErrorView,
>
    decreases parts.len() - i,
{
    if i < 0 || i >= parts.len() {
        Ok(s)
    } else {
        match styled(s, parts[i]) {
            Some(next) => style_from(parts, i + 1, next, doc),
            None => Err(invalid(parts[i], doc)),
        }
    }
}

pub open spec fn style_of(l: Option<Seq<char>>, doc: Seq<char>) -> Result<Style, ErrorView> {
    match l {
        None => Ok(Style::plain()),
        Some(t) => style_from(words(t, true), 0, Style::plain(), doc),
    }
}

fn style_word(s: Style, word: &str) -> (r: Option<Style>)
    ensures
        r == styled(s, word@),
{
    if crate::text::str_eq(word, "italic") {
        Some(Style { italic: true, underline: s.underline, strike: s.strike, weight: s.weight })
    } else if crate::text::str_eq(word, "underline") {
        Some(Style { italic: s.italic, underline: true, strike: s.strike, weight: s.weight })
    } else if crate::text::str_eq(word, "strike") {
        Some(Style { italic: s.italic, underline: s.underline, strike: true, weight: s.weight })
    } else {
        let weight = if crate::text::str_eq(word, "heavy") {
            Weight::Heavy
        } else if crate::text::str_eq(word, "extra-bold") {
            Weight::ExtraBold
        } else if crate::text::str_eq(word, "bold") {
            Weight::Bold
        } else if crate::text::str_eq(word, "semi-bold") {
            Weight::SemiBold
        } else if crate::text::str_eq(word, "medium") {
            Weight::Medium
        } else if crate::text::str_eq(word, "regular") {
            Weight::Regular
        } else if crate::text::str_eq(word, "light") {
            Weight::Light
        } else if crate::text::str_eq(word, "extra-light") {
            Weight::ExtraLight
        } else if crate::text::str_eq(word, "hairline") {
            Weight::HairLine
        } else {
            return None;
        };
        Some(Style { italic: s.italic, underline: s.underline, strike: s.strike, weight })
    }
}

impl Style {
    /// The style without any word: upright, of regular weight.
    pub open spec fn plain() -> Style {
        Style { italic: false, underline: false, strike: false, weight: Weight::Regular }
    }

    /// The style that the words of `l` give.
    pub fn from(l: Option<String>, doc_id: &str) -> (r: Result<Style, Error>)
        ensures
            agrees_plain(r, style_of(crate::kind::text_view(l), doc_id@)),
    {
        let mut s = Style { italic: false, underline: false, strike: false, weight: Weight::Regular };
        let text = match &l {
            Some(v) => v,
            None => {
                return Ok(s);
            },
        };
        let parts = crate::text::split_words(text.as_str(), true);
        let n: usize = parts.len();
        let mut i: usize = 0;
        while i < n
            invariant
                n == parts@.len(),
                i <= n,
                crate::kind::text_view(l) == Some(text@),
                crate::text::views(parts@) == words(text@, true),
                style_of(Some(text@), doc_id@) == style_from(
                    crate::text::views(parts@),
                    i as int,
                    s,
                    doc_id@,
                ),
            decreases n - i,
        {
            assert(crate::text::views(parts@)[i as int] == parts@[i as int]@);
            match style_word(s, parts[i].as_str()) {
                Some(next) => {
                    s = next;
                },
                None => {
                    return invalid_text(parts[i].as_str(), doc_id);
                },
            }
            i += 1;
        }
        Ok(s)
    }
}

#[derive(Debug, PartialEq)]
pub enum TextFormat {
    Markdown,
    Latex,
    Code { lang: String },
    Text,
}

pub enum TextFormatView {
    Markdown,
    Latex,
    Code { lang: Seq<char> },
    Text,
}

impl View for TextFormat {
    type V = TextFormatView;

    open spec fn view(&self) -> TextFormatView {
        match self {
            TextFormat::Markdown => TextFormatView::Markdown,
            TextFormat::Latex => TextFormatView::Latex,
            TextFormat::Code { lang } => TextFormatView::Code { lang: lang@ },
            TextFormat::Text => TextFormatView::Text,
        }
    }
}

impl Default for TextFormat {
    fn default() -> (r: TextFormat)
        ensures
            r@ == TextFormatView::Markdown,
    {
        TextFormat::Markdown
    }
}

pub open spec fn text_format_of(l: Option<Seq<char>>, lang: Option<Seq<char>>, doc: Seq<char>) -> Result<
    TextFormatView,
    ErrorView,
> {
    match l {
        None => Ok(TextFormatView::Markdown),
        Some(t) => if t == "markdown"@ {
            Ok(TextFormatView::Markdown)
        } else if t == "latex"@ {
            Ok(TextFormatView::Latex)
        } else if t == "code"@ {
            Ok(
                TextFormatView::Code {
                    lang: match lang {
                        Some(l) => l,
                        None => "txt"@,
                    },
                },
            )
        } else if t == "text"@ {
            Ok(TextFormatView::Text)
        } else {
            Err(invalid(t, doc))
        },
    }
}

impl TextFormat {
    /// The format that `l` denotes; for code the language `lang`, or `txt`.
    pub fn from(l: Option<String>, lang: Option<String>, doc_id: &str) -> (r: Result<
        TextFormat,
        Error,
    >)
        ensures
            agrees(
                r,
                text_format_of(crate::kind::text_view(l), crate::kind::text_view(lang), doc_id@),
            ),
    {
        let l = match l {
            Some(l) => l,
            None => {
                return Ok(TextFormat::Markdown);
            },
        };
        let t = l.as_str();
        if crate::text::str_eq(t, "markdown") {
            Ok(TextFormat::Markdown)
        } else if crate::text::str_eq(t, "latex") {
            Ok(TextFormat::Latex)
        } else if crate::text::str_eq(t, "code") {
            Ok(
                TextFormat::Code {
                    lang: match lang {
                        Some(l) => l,
                        None => "txt".to_owned(),
                    },
                },
            )
        } else if crate::text::str_eq(t, "text") {
            Ok(TextFormat::Text)
        } else {
            invalid_text(t, doc_id)
        }
    }
}

} // verus!
