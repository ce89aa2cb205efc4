//! The semantic core of a declarative language for documents and user
//! interfaces: names are resolved across documents, values are typed and
//! evaluated, and the tree of elements is compiled into what a runtime needs
//! to mount injected children and to patch what is shown when a variable
//! changes.

pub mod binding;
pub mod declaration;
pub mod dependencies;
pub mod duplicate;
pub mod element;
pub mod error;
pub mod font;
pub mod identifiers;
pub mod json;
pub mod kind;
pub mod locals;
pub mod number;
pub mod ordered_map;
pub mod record;
pub mod renesting;
pub mod resolve;
pub mod section;
pub mod slots;
pub mod tdoc;
pub mod text;
pub mod thing;
pub mod ui;
pub mod value;
pub mod value_text;
pub mod variable;

pub use crate::declaration::{Type, VariableData, VariableModifier};
pub use crate::dependencies::{
    ConditionalValueWithDefault, Data, Dependencies, DependencyType,
};
pub use crate::element::{
    AttributeType, Code, Color, Column, Common, Condition, ConditionalAttribute, ConditionalValue,
    Container, Element, Event, IFrame, Image, Input, Rendered, Row, Scene, Text, TextBlock,
};
pub use crate::error::{Error, ErrorKind};
pub use crate::font::Font;
pub use crate::json::Json;
pub use crate::kind::Kind;
pub use crate::ordered_map::OrderedMap;
pub use crate::section::{Header, Section};
pub use crate::slots::ExternalChildrenCondition;
pub use crate::tdoc::TDoc;
pub use crate::thing::{Boolean, Component, OrType, Record, Thing, Variable};
pub use crate::ui::{
    Anchor, ExternalFont, FontDisplay, GradientDirection, Length, NamedFont, Overflow, Position,
    Region, Spacing, Style, TextAlign, TextFormat, Weight,
};
pub use crate::value::{PropertyValue, TextSource, Value};
pub use crate::variable::guess_type;
