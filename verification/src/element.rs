//! Elements: the nodes of the compiled tree, with what they have in common
//! and what containers add.
//!
//! An element is its own model: contracts speak of elements as values, and
//! of the texts in them by their views.

use crate::ordered_map::OrderedMap;
use crate::ui::{
    Anchor, ExternalFont, GradientDirection, Length, NamedFont, Overflow, Position, Region, Spacing,
    Style, TextAlign,
};
use vstd::prelude::*;

verus! {

/// Whether an attribute is set as a style or as an attribute of the node.
#[derive(Debug, Clone, Copy, PartialEq, Eq, Structural)]
pub enum AttributeType {
    Style,
    Attribute,
}

#[derive(Debug, PartialEq)]
pub struct ConditionalValue {
    pub value: String,
    pub important: bool,
}

/// The test that a variable has a value.
#[derive(Debug, PartialEq)]
pub struct Condition {
    pub variable: String,
    pub value: String,
}

/// An attribute that depends on conditions: the values it takes under each,
/// and the value it has otherwise.
#[derive(Debug, PartialEq)]
pub struct ConditionalAttribute {
    pub attribute_type: AttributeType,
    pub conditions_with_value: Vec<(Condition, ConditionalValue)>,
    pub default: Option<ConditionalValue>,
}

pub struct ConditionalValueView {
    pub value: Seq<char>,
    pub important: bool,
}

impl View for ConditionalValue {
    type V = ConditionalValueView;

    open spec fn view(&self) -> ConditionalValueView {
        ConditionalValueView { value: self.value@, important: self.important }
    }
}

impl crate::duplicate::Duplicate for ConditionalValue {
    fn duplicate(&self) -> (r: Self) {
        ConditionalValue { value: self.value.clone(), important: self.important }
    }
}

pub struct ConditionView {
    pub variable: Seq<char>,
    pub value: Seq<char>,
}

impl View for Condition {
    type V = ConditionView;

    open spec fn view(&self) -> ConditionView {
        ConditionView { variable: self.variable@, value: self.value@ }
    }
}

pub struct ConditionalAttributeView {
    pub attribute_type: AttributeType,
    pub conditions_with_value: Seq<(ConditionView, ConditionalValueView)>,
    pub default: Option<ConditionalValueView>,
}

impl View for ConditionalAttribute {
    type V = ConditionalAttributeView;

    open spec fn view(&self) -> ConditionalAttributeView {
        ConditionalAttributeView {
            attribute_type: self.attribute_type,
            conditions_with_value: Seq::new(
                self.conditions_with_value@.len(),
                |i: int| (self.conditions_with_value@[i].0@, self.conditions_with_value@[i].1@),
            ),
            default: crate::duplicate::option_view(self.default),
        }
    }
}

/// What is to happen on an event.
#[derive(Debug, PartialEq)]
pub struct Event {
    pub name: String,
    pub action: String,
    pub target: String,
    pub parameters: OrderedMap<Vec<String>>,
}

/// A text as it was written and as it is shown.
#[derive(Debug, PartialEq)]
pub struct Rendered {
    pub original: String,
    pub rendered: String,
}

impl Default for Rendered {
    fn default() -> (r: Rendered)
        ensures
            r.original@.len() == 0,
            r.rendered@.len() == 0,
    {
        Rendered { original: String::new(), rendered: String::new() }
    }
}

/// A colour. The opacity is held as it is written, a decimal.
#[derive(Debug, PartialEq)]
pub struct Color {
    pub r: u8,
    pub g: u8,
    pub b: u8,
    pub alpha: String,
}

impl Default for Color {
    fn default() -> (r: Color)
        ensures
            r.r == 0,
            r.g == 0,
            r.b == 0,
            r.alpha@ == "0"@,
    {
        Color { r: 0, g: 0, b: 0, alpha: "0".to_owned() }
    }
}

/// What every element carries: its identifiers, what it depends on, and its
/// attributes of style. The factors of scale are held as they are written.
#[derive(Debug, PartialEq)]
pub struct Common {
    pub conditional_attribute: OrderedMap<ConditionalAttribute>,
    pub locals: OrderedMap<String>,
    pub condition: Option<Condition>,
    pub is_not_visible: bool,
    pub events: Vec<Event>,
    pub reference: Option<String>,
    pub region: Option<Region>,
    pub padding: Option<i64>,
    pub padding_vertical: Option<i64>,
    pub padding_horizontal: Option<i64>,
    pub padding_left: Option<i64>,
    pub padding_right: Option<i64>,
    pub padding_top: Option<i64>,
    pub padding_bottom: Option<i64>,
    pub border_top_radius: Option<i64>,
    pub border_bottom_radius: Option<i64>,
    pub border_left_radius: Option<i64>,
    pub border_right_radius: Option<i64>,
    pub width: Option<Length>,
    pub max_width: Option<Length>,
    pub min_width: Option<Length>,
    pub height: Option<Length>,
    pub min_height: Option<Length>,
    pub max_height: Option<Length>,
    pub color: Option<Color>,
    pub background_color: Option<Color>,
    pub border_color: Option<Color>,
    pub border_width: i64,
    pub border_radius: i64,
    pub id: Option<String>,
    pub data_id: Option<String>,
    pub overflow_x: Option<Overflow>,
    pub overflow_y: Option<Overflow>,
    pub border_top: Option<i64>,
    pub border_left: Option<i64>,
    pub border_right: Option<i64>,
    pub border_bottom: Option<i64>,
    pub margin_top: Option<i64>,
    pub margin_left: Option<i64>,
    pub margin_right: Option<i64>,
    pub margin_bottom: Option<i64>,
    pub link: Option<String>,
    pub open_in_new_tab: bool,
    pub sticky: bool,
    pub top: Option<i64>,
    pub bottom: Option<i64>,
    pub left: Option<i64>,
    pub right: Option<i64>,
    pub submit: Option<String>,
    pub cursor: Option<String>,
    pub shadow_offset_x: Option<i64>,
    pub shadow_offset_y: Option<i64>,
    pub shadow_size: Option<i64>,
    pub shadow_blur: Option<i64>,
    pub shadow_color: Option<Color>,
    pub anchor: Option<Anchor>,
    pub gradient_direction: Option<GradientDirection>,
    pub gradient_colors: Vec<Color>,
    pub background_image: Option<String>,
    pub background_repeat: bool,
    pub background_parallax: bool,
    pub scale: Option<String>,
    pub scale_x: Option<String>,
    pub scale_y: Option<String>,
    pub rotate: Option<i64>,
    pub move_up: Option<i64>,
    pub move_down: Option<i64>,
    pub move_left: Option<i64>,
    pub move_right: Option<i64>,
    pub position: Position,
    pub inner: bool,
}

impl Default for Common {
    fn default() -> (r: Common)
        ensures
            r.is_blank(),
    {
        Common {
            conditional_attribute: OrderedMap::new(),
            locals: OrderedMap::new(),
            condition: None,
            is_not_visible: false,
            events: Vec::new(),
            reference: None,
            region: None,
            padding: None,
            padding_vertical: None,
            padding_horizontal: None,
            padding_left: None,
            padding_right: None,
            padding_top: None,
            padding_bottom: None,
            border_top_radius: None,
            border_bottom_radius: None,
            border_left_radius: None,
            border_right_radius: None,
            width: None,
            max_width: None,
            min_width: None,
            height: None,
            min_height: None,
            max_height: None,
            color: None,
            background_color: None,
            border_color: None,
            border_width: 0,
            border_radius: 0,
            id: None,
            data_id: None,
            overflow_x: None,
            overflow_y: None,
            border_top: None,
            border_left: None,
            border_right: None,
            border_bottom: None,
            margin_top: None,
            margin_left: None,
            margin_right: None,
            margin_bottom: None,
            link: None,
            open_in_new_tab: false,
            sticky: false,
            top: None,
            bottom: None,
            left: None,
            right: None,
            submit: None,
            cursor: None,
            shadow_offset_x: None,
            shadow_offset_y: None,
            shadow_size: None,
            shadow_blur: None,
            shadow_color: None,
            anchor: None,
            gradient_direction: None,
            gradient_colors: Vec::new(),
            background_image: None,
            background_repeat: false,
            background_parallax: false,
            scale: None,
            scale_x: None,
            scale_y: None,
            rotate: None,
            move_up: None,
            move_down: None,
            move_left: None,
            move_right: None,
            position: Position::TopLeft,
            inner: false,
        }
    }
}

/// What a container adds: its children, and the slot through which the
/// children of a use of the component come in: the identifier that opens
/// it, the paths to it, and the children themselves.
#[derive(Debug, PartialEq)]
pub struct Container {
    pub children: Vec<Element>,
    pub external_children: Option<(String, Vec<Vec<usize>>, Vec<Element>)>,
    pub open: (Option<bool>, Option<String>),
    pub spacing: Option<Spacing>,
    pub wrap: bool,
}

impl Default for Container {
    fn default() -> (r: Container)
        ensures
            r.is_blank(),
    {
        Container {
            children: Vec::new(),
            external_children: None,
            open: (None, None),
            spacing: None,
            wrap: false,
        }
    }
}

impl Container {
    /// Whether the container takes the children that follow, and under which
    /// identifier: as it says, or, where it says nothing, when it has no
    /// children and is told that the surrounding one has none either.
    pub fn is_open(&self, is_container_children_empty: bool) -> (r: (bool, Option<String>))
        ensures
            r.0 == (match self.open.0 {
                Some(open) => open,
                None => self.children@.len() == 0 && is_container_children_empty,
            }),
            crate::kind::text_view(r.1) == crate::kind::text_view(self.open.1),
    {
        (
            match self.open.0 {
                Some(open) => open,
                None => self.children.len() == 0 && is_container_children_empty,
            },
            crate::kind::clone_text(&self.open.1),
        )
    }
}


#[derive(Debug, PartialEq)]
pub struct Image {
    pub src: String,
    pub description: String,
    pub common: Common,
    pub crop: bool,
}

impl Default for Image {
    fn default() -> (r: Image)
        ensures
            r.src@.len() == 0,
            r.description@.len() == 0,
            r.common.is_blank(),
            !r.crop,
    {
        Image {
            src: String::new(),
            description: String::new(),
            common: Common::default(),
            crop: false,
        }
    }
}

#[derive(Debug, PartialEq)]
pub struct Row {
    pub container: Container,
    pub common: Common,
}

impl Default for Row {
    fn default() -> (r: Row)
        ensures
            r.container.is_blank(),
            r.common.is_blank(),
    {
        Row {
            container: Container::default(),
            common: Common::default(),
        }
    }
}

#[derive(Debug, PartialEq)]
pub struct Scene {
    pub container: Container,
    pub common: Common,
}

impl Default for Scene {
    fn default() -> (r: Scene)
        ensures
            r.container.is_blank(),
            r.common.is_blank(),
    {
        Scene {
            container: Container::default(),
            common: Common::default(),
        }
    }
}

#[derive(Debug, PartialEq)]
pub struct Column {
    pub container: Container,
    pub common: Common,
}

impl Default for Column {
    fn default() -> (r: Column)
        ensures
            r.container.is_blank(),
            r.common.is_blank(),
    {
        Column {
            container: Container::default(),
            common: Common::default(),
        }
    }
}

#[derive(Debug, PartialEq)]
pub struct IFrame {
    pub src: String,
    pub common: Common,
}

impl Default for IFrame {
    fn default() -> (r: IFrame)
        ensures
            r.src@.len() == 0,
            r.common.is_blank(),
    {
        IFrame {
            src: String::new(),
            common: Common::default(),
        }
    }
}

#[derive(Debug, PartialEq)]
pub struct Text {
    pub text: Rendered,
    pub line: bool,
    pub common: Common,
    pub text_align: TextAlign,
    pub style: Style,
    pub size: Option<i64>,
    pub font: Vec<NamedFont>,
    pub external_font: Option<ExternalFont>,
    pub line_height: Option<i64>,
    pub line_clamp: Option<i64>,
}

impl Default for Text {
    fn default() -> (r: Text)
        ensures
            r.text.original@.len() == 0 && r.text.rendered@.len() == 0,
            !r.line,
            r.common.is_blank(),
            r.text_align == TextAlign::Left,
            r.style == Style::plain(),
            r.size is None,
            r.font@.len() == 0,
            r.external_font is None,
            r.line_height is None,
            r.line_clamp is None,
    {
        Text {
            text: Rendered::default(),
            line: false,
            common: Common::default(),
            text_align: TextAlign::Left,
            style: Style::default(),
            size: None,
            font: Vec::new(),
            external_font: None,
            line_height: None,
            line_clamp: None,
        }
    }
}

#[derive(Debug, PartialEq)]
pub struct TextBlock {
    pub text: Rendered,
    pub line: bool,
    pub common: Common,
    pub text_align: TextAlign,
    pub style: Style,
    pub size: Option<i64>,
    pub font: Vec<NamedFont>,
    pub external_font: Option<ExternalFont>,
    pub line_height: Option<i64>,
    pub line_clamp: Option<i64>,
}

impl Default for TextBlock {
    fn default() -> (r: TextBlock)
        ensures
            r.text.original@.len() == 0 && r.text.rendered@.len() == 0,
            !r.line,
            r.common.is_blank(),
            r.text_align == TextAlign::Left,
            r.style == Style::plain(),
            r.size is None,
            r.font@.len() == 0,
            r.external_font is None,
            r.line_height is None,
            r.line_clamp is None,
    {
        TextBlock {
            text: Rendered::default(),
            line: false,
            common: Common::default(),
            text_align: TextAlign::Left,
            style: Style::default(),
            size: None,
            font: Vec::new(),
            external_font: None,
            line_height: None,
            line_clamp: None,
        }
    }
}

#[derive(Debug, PartialEq)]
pub struct Code {
    pub text: Rendered,
    pub common: Common,
    pub text_align: TextAlign,
    pub style: Style,
    pub size: Option<i64>,
    pub font: Vec<NamedFont>,
    pub external_font: Option<ExternalFont>,
    pub line_height: Option<i64>,
    pub line_clamp: Option<i64>,
}

impl Default for Code {
    fn default() -> (r: Code)
        ensures
            r.text.original@.len() == 0 && r.text.rendered@.len() == 0,
            r.common.is_blank(),
            r.text_align == TextAlign::Left,
            r.style == Style::plain(),
            r.size is None,
            r.font@.len() == 0,
            r.external_font is None,
            r.line_height is None,
            r.line_clamp is None,
    {
        Code {
            text: Rendered::default(),
            common: Common::default(),
            text_align: TextAlign::Left,
            style: Style::default(),
            size: None,
            font: Vec::new(),
            external_font: None,
            line_height: None,
            line_clamp: None,
        }
    }
}

#[derive(Debug, PartialEq)]
pub struct Input {
    pub common: Common,
    pub placeholder: Option<String>,
}

impl Default for Input {
    fn default() -> (r: Input)
        ensures
            r.common.is_blank(),
            r.placeholder is None,
    {
        Input {
            common: Common::default(),
            placeholder: None,
        }
    }
}

impl Common {
    /// Whether nothing is set.
    pub open spec fn is_blank(&self) -> bool {
        &&& self.conditional_attribute.entries@.len() == 0
        &&& self.locals.entries@.len() == 0
        &&& self.condition is None
        &&& !self.is_not_visible
        &&& self.events@.len() == 0
        &&& self.reference is None
        &&& self.region is None
        &&& self.padding is None
        &&& self.padding_vertical is None
        &&& self.padding_horizontal is None
        &&& self.padding_left is None
        &&& self.padding_right is None
        &&& self.padding_top is None
        &&& self.padding_bottom is None
        &&& self.border_top_radius is None
        &&& self.border_bottom_radius is None
        &&& self.border_left_radius is None
        &&& self.border_right_radius is None
        &&& self.width is None
        &&& self.max_width is None
        &&& self.min_width is None
        &&& self.height is None
        &&& self.min_height is None
        &&& self.max_height is None
        &&& self.color is None
        &&& self.background_color is None
        &&& self.border_color is None
        &&& self.border_width == 0
        &&& self.border_radius == 0
        &&& self.id is None
        &&& self.data_id is None
        &&& self.overflow_x is None
        &&& self.overflow_y is None
        &&& self.border_top is None
        &&& self.border_left is None
        &&& self.border_right is None
        &&& self.border_bottom is None
        &&& self.margin_top is None
        &&& self.margin_left is None
        &&& self.margin_right is None
        &&& self.margin_bottom is None
        &&& self.link is None
        &&& !self.open_in_new_tab
        &&& !self.sticky
        &&& self.top is None
        &&& self.bottom is None
        &&& self.left is None
        &&& self.right is None
        &&& self.submit is None
        &&& self.cursor is None
        &&& self.shadow_offset_x is None
        &&& self.shadow_offset_y is None
        &&& self.shadow_size is None
        &&& self.shadow_blur is None
        &&& self.shadow_color is None
        &&& self.anchor is None
        &&& self.gradient_direction is None
        &&& self.gradient_colors@.len() == 0
        &&& self.background_image is None
        &&& !self.background_repeat
        &&& !self.background_parallax
        &&& self.scale is None
        &&& self.scale_x is None
        &&& self.scale_y is None
        &&& self.rotate is None
        &&& self.move_up is None
        &&& self.move_down is None
        &&& self.move_left is None
        &&& self.move_right is None
        &&& self.position == Position::TopLeft
        &&& !self.inner
    }
}

impl Container {
    /// Whether nothing is set.
    pub open spec fn is_blank(&self) -> bool {
        &&& self.children@.len() == 0
        &&& self.external_children is None
        &&& self.open == (None::<bool>, None::<String>)
        &&& self.spacing is None
        &&& !self.wrap
    }
}

/// A node of the tree.
#[derive(Debug, PartialEq)]
pub enum Element {
    Text(Text),
    TextBlock(TextBlock),
    Code(Code),
    Image(Image),
    Row(Row),
    Column(Column),
    IFrame(IFrame),
    Input(Input),
    Integer(Text),
    Boolean(Text),
    Decimal(Text),
    Scene(Scene),
    Null,
}

impl Element {
    /// What the element has in common with every other; the null element
    /// has nothing.
    pub open spec fn spec_common(self) -> Option<Common> {
        match self {
            Element::Text(e) => Some(e.common),
            Element::TextBlock(e) => Some(e.common),
            Element::Code(e) => Some(e.common),
            Element::Image(e) => Some(e.common),
            Element::Row(e) => Some(e.common),
            Element::Column(e) => Some(e.common),
            Element::IFrame(e) => Some(e.common),
            Element::Input(e) => Some(e.common),
            Element::Integer(e) => Some(e.common),
            Element::Boolean(e) => Some(e.common),
            Element::Decimal(e) => Some(e.common),
            Element::Scene(e) => Some(e.common),
            Element::Null => None,
        }
    }

    /// The element with `c` in place of what it has in common.
    pub open spec fn with_common(self, c: Common) -> Element {
        match self {
            Element::Text(e) => Element::Text(Text { common: c, ..e }),
            Element::TextBlock(e) => Element::TextBlock(TextBlock { common: c, ..e }),
            Element::Code(e) => Element::Code(Code { common: c, ..e }),
            Element::Image(e) => Element::Image(Image { common: c, ..e }),
            Element::Row(e) => Element::Row(Row { common: c, ..e }),
            Element::Column(e) => Element::Column(Column { common: c, ..e }),
            Element::IFrame(e) => Element::IFrame(IFrame { common: c, ..e }),
            Element::Input(e) => Element::Input(Input { common: c, ..e }),
            Element::Integer(e) => Element::Integer(Text { common: c, ..e }),
            Element::Boolean(e) => Element::Boolean(Text { common: c, ..e }),
            Element::Decimal(e) => Element::Decimal(Text { common: c, ..e }),
            Element::Scene(e) => Element::Scene(Scene { common: c, ..e }),
            Element::Null => Element::Null,
        }
    }

    /// The container of a row, a column or a scene.
    pub open spec fn spec_container(self) -> Option<Container> {
        match self {
            Element::Row(e) => Some(e.container),
            Element::Column(e) => Some(e.container),
            Element::Scene(e) => Some(e.container),
            _ => None,
        }
    }

    /// The element with `k` in place of its container.
    pub open spec fn with_container(self, k: Container) -> Element {
        match self {
            Element::Row(e) => Element::Row(Row { container: k, ..e }),
            Element::Column(e) => Element::Column(Column { container: k, ..e }),
            Element::Scene(e) => Element::Scene(Scene { container: k, ..e }),
            _ => self,
        }
    }

    /// The identifier by which the runtime addresses the element.
    pub open spec fn spec_data_id(self) -> Option<Seq<char>> {
        match self.spec_common() {
            Some(c) => crate::kind::text_view(c.data_id),
            None => None,
        }
    }

    /// The region of a row or a column, where it is a heading.
    pub open spec fn spec_heading_region(self) -> Option<Region> {
        match self {
            Element::Row(e) => match e.common.region {
                Some(r) => if r.spec_is_heading() {
                    Some(r)
                } else {
                    None
                },
                None => None,
            },
            Element::Column(e) => match e.common.region {
                Some(r) => if r.spec_is_heading() {
                    Some(r)
                } else {
                    None
                },
                None => None,
            },
            _ => None,
        }
    }

    /// What the element has in common with every other.
    pub fn get_common(&self) -> (r: Option<&Common>)
        ensures
            match r {
                Some(c) => self.spec_common() == Some(*c),
                None => self.spec_common() is None,
            },
    {
        match self {
            Element::Text(e) => Some(&e.common),
            Element::TextBlock(e) => Some(&e.common),
            Element::Code(e) => Some(&e.common),
            Element::Image(e) => Some(&e.common),
            Element::Row(e) => Some(&e.common),
            Element::Column(e) => Some(&e.common),
            Element::IFrame(e) => Some(&e.common),
            Element::Input(e) => Some(&e.common),
            Element::Integer(e) => Some(&e.common),
            Element::Boolean(e) => Some(&e.common),
            Element::Decimal(e) => Some(&e.common),
            Element::Scene(e) => Some(&e.common),
            Element::Null => None,
        }
    }

    /// What the element has in common with every other, to be changed in
    /// place.
    pub fn get_mut_common(&mut self) -> (r: Option<&mut Common>)
        ensures
            match r {
                Some(c) => old(self).spec_common() == Some(*c) && *final(self) == old(
                    self,
                ).with_common(*final(c)),
                None => old(self).spec_common() is None && *final(self) == *old(self),
            },
    {
        match self {
            Element::Text(e) => Some(&mut e.common),
            Element::TextBlock(e) => Some(&mut e.common),
            Element::Code(e) => Some(&mut e.common),
            Element::Image(e) => Some(&mut e.common),
            Element::Row(e) => Some(&mut e.common),
            Element::Column(e) => Some(&mut e.common),
            Element::IFrame(e) => Some(&mut e.common),
            Element::Input(e) => Some(&mut e.common),
            Element::Integer(e) => Some(&mut e.common),
            Element::Boolean(e) => Some(&mut e.common),
            Element::Decimal(e) => Some(&mut e.common),
            Element::Scene(e) => Some(&mut e.common),
            Element::Null => None,
        }
    }

    /// The container of a row, a column or a scene.
    pub fn get_container(&self) -> (r: Option<&Container>)
        ensures
            match r {
                Some(k) => self.spec_container() == Some(*k),
                None => self.spec_container() is None,
            },
    {
        match self {
            Element::Row(e) => Some(&e.container),
            Element::Column(e) => Some(&e.container),
            Element::Scene(e) => Some(&e.container),
            _ => None,
        }
    }

    /// Whether the element is a container that takes the children that
    /// follow, and under which identifier.
    pub fn is_open_container(&self, is_container_children_empty: bool) -> (r: (bool, Option<String>))
        ensures
            r.0 == (match self.spec_container() {
                Some(k) => match k.open.0 {
                    Some(open) => open,
                    None => k.children@.len() == 0 && is_container_children_empty,
                },
                None => false,
            }),
            crate::kind::text_view(r.1) == (match self.spec_container() {
                Some(k) => crate::kind::text_view(k.open.1),
                None => None,
            }),
    {
        match self.get_container() {
            Some(k) => k.is_open(is_container_children_empty),
            None => (false, None),
        }
    }

    /// The identifier of a container.
    pub fn container_id(&self) -> (r: Option<String>)
        ensures
            crate::kind::text_view(r) == (if self.spec_container() is Some {
                self.spec_data_id()
            } else {
                None
            }),
    {
        match self {
            Element::Column(e) => crate::kind::clone_text(&e.common.data_id),
            Element::Row(e) => crate::kind::clone_text(&e.common.data_id),
            Element::Scene(e) => crate::kind::clone_text(&e.common.data_id),
            _ => None,
        }
    }

    /// Gives a container the identifier `name`; any other element stays as
    /// it is.
    pub fn set_container_id(&mut self, name: Option<String>)
        ensures
            *final(self) == (if old(self).spec_container() is Some {
                old(self).with_common(Common { data_id: name, ..old(self).spec_common()->Some_0 })
            } else {
                *old(self)
            }),
    {
        match self {
            Element::Column(e) => {
                e.common.data_id = name;
            },
            Element::Row(e) => {
                e.common.data_id = name;
            },
            Element::Scene(e) => {
                e.common.data_id = name;
            },
            _ => {},
        }
    }

    /// Gives the element the name `name`.
    pub fn set_element_id(&mut self, name: Option<String>)
        ensures
            *final(self) == (match old(self).spec_common() {
                Some(c) => old(self).with_common(Common { id: name, ..c }),
                None => *old(self),
            }),
    {
        match self.get_mut_common() {
            Some(c) => {
                c.id = name;
            },
            None => {},
        }
    }

    /// Makes the visibility of the element depend on `condition`.
    pub fn set_condition(&mut self, condition: Option<Condition>)
        ensures
            *final(self) == (match old(self).spec_common() {
                Some(c) => old(self).with_common(Common { condition, ..c }),
                None => *old(self),
            }),
    {
        match self.get_mut_common() {
            Some(c) => {
                c.condition = condition;
            },
            None => {},
        }
    }

    /// Hides or shows the element.
    pub fn set_non_visibility(&mut self, is_not_visible: bool)
        ensures
            *final(self) == (match old(self).spec_common() {
                Some(c) => old(self).with_common(Common { is_not_visible, ..c }),
                None => *old(self),
            }),
    {
        match self.get_mut_common() {
            Some(c) => {
                c.is_not_visible = is_not_visible;
            },
            None => {},
        }
    }

    /// Gives the element the locals `locals`.
    pub fn set_locals(&mut self, locals: OrderedMap<String>)
        ensures
            *final(self) == (match old(self).spec_common() {
                Some(c) => old(self).with_common(Common { locals, ..c }),
                None => *old(self),
            }),
    {
        match self.get_mut_common() {
            Some(c) => {
                c.locals = locals;
            },
            None => {},
        }
    }

    /// Moves `events` to the end of the element's events. The null element
    /// takes none, and `events` keeps them.
    pub fn set_events(&mut self, events: &mut Vec<Event>)
        ensures
            match old(self).spec_common() {
                Some(c) => final(self).spec_common() is Some && final(self).spec_common()->Some_0.events@
                    == c.events@ + old(events)@ && *final(self) == old(self).with_common(
                    Common { events: final(self).spec_common()->Some_0.events, ..c },
                ) && final(events)@.len() == 0,
                None => *final(self) == *old(self) && *final(events) == *old(events),
            },
    {
        match self.get_mut_common() {
            Some(c) => {
                c.events.append(events);
            },
            None => {},
        }
    }

    /// The region of a row or a column, where it is a heading.
    pub fn get_heading_region(&self) -> (r: Option<&Region>)
        ensures
            match r {
                Some(region) => self.spec_heading_region() == Some(*region),
                None => self.spec_heading_region() is None,
            },
    {
        let region = match self {
            Element::Column(e) => &e.common.region,
            Element::Row(e) => &e.common.region,
            _ => {
                return None;
            },
        };
        match region {
            Some(r) => if r.is_heading() {
                Some(r)
            } else {
                None
            },
            None => None,
        }
    }
}

} // verus!
