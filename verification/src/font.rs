//! Fonts: the declaration of a font face that a page embeds.

use crate::kind::text_view;
use crate::text::{join, views};
use vstd::prelude::*;

verus! {

/// A font: its name, its sources by format, and how it is to be used.
#[derive(Debug, PartialEq)]
pub struct Font {
    pub name: String,
    pub woff: Option<String>,
    pub woff2: Option<String>,
    pub truetype: Option<String>,
    pub opentype: Option<String>,
    pub embedded_opentype: Option<String>,
    pub svg: Option<String>,
    pub unicode_range: Option<String>,
    pub display: Option<String>,
    pub style: Option<String>,
    pub weight: Option<String>,
}

/// What stands for a character in a page: `>`, `<` and `&` by their
/// numbers, any other character itself.
pub open spec fn escaped_char(c: char) -> Seq<char> {
    if c == '>' {
        "\\u003E"@
    } else if c == '<' {
        "\\u003C"@
    } else if c == '&' {
        "\\u0026"@
    } else {
        seq![c]
    }
}

/// `s` with every character by what stands for it.
pub open spec fn escaped(s: Seq<char>) -> Seq<char>
    decreases s.len(),
{
    if s.len() == 0 {
        Seq::empty()
    } else {
        escaped(s.drop_last()) + escaped_char(s.last())
    }
}

/// `acc` with `before`, the escaped `value` and `after` as one more part,
/// where there is a value.
pub open spec fn with_part(
    acc: Seq<Seq<char>>,
    before: Seq<char>,
    value: Option<Seq<char>>,
    after: Seq<char>,
) -> Seq<Seq<char>> {
    match value {
        Some(v) => acc.push(before + escaped(v) + after),
        None => acc,
    }
}

/// The source of a font in the format `kind`.
pub open spec fn source_text(kind: Seq<char>, value: Seq<char>) -> Seq<char> {
    "url("@ + escaped(value) + ") format('"@ + kind + "')"@
}

/// `acc` with the source `value` in the format `kind`, where there is one.
pub open spec fn with_source(acc: Seq<Seq<char>>, kind: Seq<char>, value: Option<Seq<char>>) -> Seq<
    Seq<char>,
> {
    match value {
        Some(v) => acc.push(source_text(kind, v)),
        None => acc,
    }
}

impl Font {
    /// The sources of the font, in the order of the formats.
    pub open spec fn sources(self) -> Seq<Seq<char>> {
        with_source(
            with_source(
                with_source(
                    with_source(
                        with_source(
                            with_source(Seq::empty(), "woff"@, text_view(self.woff)),
                            "woff2"@,
                            text_view(self.woff2),
                        ),
                        "truetype"@,
                        text_view(self.truetype),
                    ),
                    "opentype"@,
                    text_view(self.opentype),
                ),
                "embedded-opentype"@,
                text_view(self.embedded_opentype),
            ),
            "svg"@,
            text_view(self.svg),
        )
    }

    /// The attributes of the font face, without its family: range, display,
    /// style and weight, and the sources where there are any.
    pub open spec fn attributes(self) -> Seq<Seq<char>> {
        let attrs = with_part(
            with_part(
                with_part(
                    with_part(
                        Seq::empty(),
                        "unicode-range: "@,
                        text_view(self.unicode_range),
                        ";"@,
                    ),
                    "font-display: "@,
                    text_view(self.display),
                    ";"@,
                ),
                "font-style: "@,
                text_view(self.style),
                ";"@,
            ),
            "font-weight: "@,
            text_view(self.weight),
            ";"@,
        );
        if self.sources().len() > 0 {
            attrs.push("src: "@ + join(self.sources(), ", "@))
        } else {
            attrs
        }
    }

    /// The declaration of the font face; nothing for a font without any
    /// attribute.
    pub open spec fn html(self) -> Seq<char> {
        if self.attributes().len() == 0 {
            Seq::empty()
        } else {
            "@font-face { "@ + join(
                self.attributes().push("font-family: "@ + self.name@),
                ";\n"@,
            ) + " }"@
        }
    }
}

/// `s` with `>`, `<` and `&` written by their numbers.
pub fn escape(s: &str) -> (r: String)
    ensures
        r@ == escaped(s@),
{
    let mut out = String::new();
    let n: usize = s.unicode_len();
    let mut i: usize = 0;
    assert(s@.subrange(0, 0) =~= Seq::<char>::empty());
    while i < n
        invariant
            n == s@.len(),
            i <= n,
            out@ == escaped(s@.subrange(0, i as int)),
        decreases n - i,
    {
        let c = s.get_char(i);
        proof {
            let next = s@.subrange(0, i + 1);
            assert(next.drop_last() =~= s@.subrange(0, i as int));
            assert(next.last() == c);
        }
        if c == '>' {
            out.append("\\u003E");
        } else if c == '<' {
            out.append("\\u003C");
        } else if c == '&' {
            out.append("\\u0026");
        } else {
            out.append(s.substring_char(i, i + 1));
            assert(s@.subrange(i as int, i + 1) =~= seq![c]);
        }
        i += 1;
    }
    assert(s@.subrange(0, n as int) =~= s@);
    out
}

fn push_text(collector: &mut Vec<String>, text: String)
    ensures
        views(final(collector)@) == views(old(collector)@).push(text@),
{
    let ghost before = views(collector@);
    collector.push(text);
    assert(views(collector@) =~= before.push(text@));
}

/// Adds the source `value` in the format `kind` to `collector`, where
/// there is one.
pub fn append_src(kind: &str, value: &Option<String>, collector: &mut Vec<String>)
    ensures
        views(final(collector)@) == with_source(views(old(collector)@), kind@, text_view(*value)),
{
    match value {
        Some(v) => {
            let mut text = crate::text::concat("url(", escape(v.as_str()).as_str());
            text.append(") format('");
            text.append(kind);
            text.append("')");
            push_text(collector, text);
        },
        None => {},
    }
}

fn append_part(before: &str, value: &Option<String>, after: &str, collector: &mut Vec<String>)
    ensures
        views(final(collector)@) == with_part(
            views(old(collector)@),
            before@,
            text_view(*value),
            after@,
        ),
{
    match value {
        Some(v) => {
            let text = crate::text::concat3(before, escape(v.as_str()).as_str(), after);
            push_text(collector, text);
        },
        None => {},
    }
}

impl Font {
    /// The declaration of the font face.
    pub fn to_html(&self) -> (r: String)
        ensures
            r@ == self.html(),
    {
        let mut attrs: Vec<String> = Vec::new();
        assert(views(attrs@) =~= Seq::<Seq<char>>::empty());
        append_part("unicode-range: ", &self.unicode_range, ";", &mut attrs);
        append_part("font-display: ", &self.display, ";", &mut attrs);
        append_part("font-style: ", &self.style, ";", &mut attrs);
        append_part("font-weight: ", &self.weight, ";", &mut attrs);
        let mut src: Vec<String> = Vec::new();
        assert(views(src@) =~= Seq::<Seq<char>>::empty());
        append_src("woff", &self.woff, &mut src);
        append_src("woff2", &self.woff2, &mut src);
        append_src("truetype", &self.truetype, &mut src);
        append_src("opentype", &self.opentype, &mut src);
        append_src("embedded-opentype", &self.embedded_opentype, &mut src);
        append_src("svg", &self.svg, &mut src);
        assert(views(src@) == self.sources());
        if src.len() > 0 {
            let text = crate::text::concat("src: ", crate::text::join_strings(&src, ", ").as_str());
            push_text(&mut attrs, text);
        }
        assert(views(attrs@) == self.attributes());
        if attrs.len() == 0 {
            String::new()
        } else {
            push_text(&mut attrs, crate::text::concat("font-family: ", self.name.as_str()));
            let mut out = "@font-face { ".to_owned();
            out.append(crate::text::join_strings(&attrs, ";\n").as_str());
            out.append(" }");
            out
        }
    }
}

} // verus!
