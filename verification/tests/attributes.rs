use ftd::{
    Anchor, ErrorKind, Font, FontDisplay, GradientDirection, Length, NamedFont, Overflow, Position,
    Region, Spacing, Style, TextAlign, TextFormat, Weight,
};

fn s(t: &str) -> Option<String> {
    Some(t.to_string())
}

#[test]
fn lengths() {
    assert_eq!(Length::from(None, "d").unwrap(), None);
    assert_eq!(Length::from(s("fill"), "d").unwrap(), Some(Length::Fill));
    assert_eq!(Length::from(s("shrink"), "d").unwrap(), Some(Length::Shrink));
    assert_eq!(Length::from(s("auto"), "d").unwrap(), Some(Length::Auto));
    assert_eq!(Length::from(s("fit-content"), "d").unwrap(), Some(Length::FitContent));
    assert_eq!(
        Length::from(s("calc 100% - 2px"), "d").unwrap(),
        Some(Length::Calc { value: "100% - 2px".to_string() })
    );
    assert_eq!(Length::from(s("portion 3"), "d").unwrap(), Some(Length::Portion { value: 3 }));
    assert_eq!(Length::from(s("percent 50"), "d").unwrap(), Some(Length::Percent { value: 50 }));
    assert_eq!(Length::from(s("vh 10"), "d").unwrap(), Some(Length::VH { value: 10 }));
    assert_eq!(Length::from(s("vw -10"), "d").unwrap(), Some(Length::VW { value: -10 }));
    assert_eq!(Length::from(s("12"), "d").unwrap(), Some(Length::Px { value: 12 }));
    let e = Length::from(s("portion x"), "d").unwrap_err();
    assert_eq!(
        (e.kind, e.subject.as_str(), e.doc_id.as_str(), e.line_number),
        (ErrorKind::TypeMismatch, "x", "d", 0)
    );
    assert_eq!(Length::from(s("wide"), "d").unwrap_err().subject, "wide");
    assert_eq!(Length::from(s("vh"), "d").unwrap_err().subject, "vh");
    assert_eq!(Length::from(s("portion  3"), "d").unwrap_err().subject, " 3");
}

#[test]
fn words_of_attributes() {
    assert_eq!(Position::from(None, "d").unwrap(), Position::TopLeft);
    assert_eq!(Position::from(s("bottom-right"), "d").unwrap(), Position::BottomRight);
    assert_eq!(Position::from(s("center"), "d").unwrap(), Position::Center);
    assert_eq!(Position::from(s("middle"), "d").unwrap_err().subject, "middle");
    assert_eq!(Position::default(), Position::TopLeft);

    assert_eq!(Overflow::from(None, "d").unwrap(), None);
    assert_eq!(Overflow::from(s("scroll"), "d").unwrap(), Some(Overflow::Scroll));
    assert!(Overflow::from(s("spill"), "d").is_err());

    assert_eq!(Anchor::from(None, "d").unwrap(), None);
    assert_eq!(Anchor::from(s("window"), "d").unwrap(), Some(Anchor::Window));
    assert_eq!(Anchor::from(s("parent"), "d").unwrap(), Some(Anchor::Parent));
    assert!(Anchor::from(s("page"), "d").is_err());
    assert_eq!(Anchor::Window.to_postion(), "fixed");
    assert_eq!(Anchor::Parent.to_postion(), "absolute");

    assert_eq!(
        GradientDirection::from(s("bottom-left to top-right"), "d").unwrap(),
        Some(GradientDirection::BottomLeftToTopRight)
    );
    assert_eq!(
        GradientDirection::from(s("angle 45"), "d").unwrap(),
        Some(GradientDirection::Angle { value: 45 })
    );
    assert_eq!(GradientDirection::from(s("sideways"), "d").unwrap(), None);
    assert_eq!(GradientDirection::from(None, "d").unwrap(), None);
    assert_eq!(GradientDirection::from(s("angle x"), "d").unwrap_err().subject, "x");

    assert_eq!(Spacing::from(None).unwrap(), None);
    assert_eq!(Spacing::from(s("space-between")).unwrap(), Some(Spacing::SpaceBetween));
    assert_eq!(
        Spacing::from(s("10")).unwrap(),
        Some(Spacing::Absolute { value: "10".to_string() })
    );

    assert_eq!(TextAlign::from(None, "d").unwrap(), TextAlign::Left);
    assert_eq!(TextAlign::from(s("justify"), "d").unwrap(), TextAlign::Justify);
    assert!(TextAlign::from(s("top"), "d").is_err());
    assert_eq!(TextAlign::default(), TextAlign::Left);

    assert_eq!(FontDisplay::from(None, "d").unwrap(), FontDisplay::Block);
    assert_eq!(FontDisplay::from(s("swap"), "d").unwrap(), FontDisplay::Swap);
    assert!(FontDisplay::from(s("fade"), "d").is_err());
    assert_eq!(FontDisplay::default(), FontDisplay::Block);

    assert_eq!(NamedFont::from(None).unwrap(), NamedFont::Serif);
    assert_eq!(NamedFont::from(s("sansSerif")).unwrap(), NamedFont::SansSerif);
    assert_eq!(
        NamedFont::from(s("Inter")).unwrap(),
        NamedFont::Named { value: "Inter".to_string() }
    );

    assert_eq!(TextFormat::from(None, None, "d").unwrap(), TextFormat::Markdown);
    assert_eq!(
        TextFormat::from(s("code"), None, "d").unwrap(),
        TextFormat::Code { lang: "txt".to_string() }
    );
    assert_eq!(
        TextFormat::from(s("code"), s("rs"), "d").unwrap(),
        TextFormat::Code { lang: "rs".to_string() }
    );
    assert_eq!(TextFormat::from(s("latex"), s("rs"), "d").unwrap(), TextFormat::Latex);
    assert!(TextFormat::from(s("html"), None, "d").is_err());
    assert_eq!(TextFormat::default(), TextFormat::Markdown);
    assert_eq!(Weight::default(), Weight::Regular);
}

#[test]
fn styles() {
    let plain = Style { italic: false, underline: false, strike: false, weight: Weight::Regular };
    assert_eq!(Style::from(None, "d").unwrap(), plain);
    assert_eq!(Style::default(), plain);
    assert_eq!(Style::from(s("  "), "d").unwrap(), plain);
    assert_eq!(
        Style::from(s("italic\tbold  strike heavy"), "d").unwrap(),
        Style { italic: true, underline: false, strike: true, weight: Weight::Heavy }
    );
    assert_eq!(
        Style::from(s("underline hairline"), "d").unwrap(),
        Style { italic: false, underline: true, strike: false, weight: Weight::HairLine }
    );
    let e = Style::from(s("italic loud bold"), "d").unwrap_err();
    assert_eq!((e.kind, e.subject.as_str()), (ErrorKind::TypeMismatch, "loud"));
    // only the blanks of ASCII separate the words of a style
    assert_eq!(Style::from(s("italic\u{a0}bold"), "d").unwrap_err().subject, "italic\u{a0}bold");
}

#[test]
fn regions() {
    assert_eq!(Region::from(None, "d").unwrap(), None);
    assert_eq!(Region::from(s("h3"), "d").unwrap(), Some(Region::H3));
    assert_eq!(Region::from(s("main"), "d").unwrap(), Some(Region::MainContent));
    assert_eq!(
        Region::from(s("announce-urgently"), "d").unwrap(),
        Some(Region::AnnounceUrgently)
    );
    assert!(Region::from(s("h8"), "d").is_err());
    for r in [Region::H0, Region::H5, Region::Title, Region::Navigation, Region::Announce] {
        assert_eq!(Region::from(Some(r.to_string()), "d").unwrap(), Some(r));
    }
    assert!(Region::H7.is_heading() && !Region::Aside.is_heading());
    assert!(Region::H0.is_primary_heading() && Region::H1.is_primary_heading());
    assert!(!Region::H2.is_primary_heading());
    assert!(Region::Title.is_title() && !Region::H0.is_title());
    assert_eq!(
        Region::H4.get_lower_priority_heading(),
        vec![Region::H7, Region::H6, Region::H5]
    );
    assert_eq!(Region::H7.get_lower_priority_heading(), vec![]);
    assert_eq!(Region::H0.get_lower_priority_heading().len(), 7);
    assert_eq!(Region::H1.get_lower_priority_heading().len(), 6);
    assert_eq!(Region::Footer.get_lower_priority_heading(), vec![]);
}

fn font() -> Font {
    Font {
        name: "Inter".to_string(),
        woff: None,
        woff2: None,
        truetype: None,
        opentype: None,
        embedded_opentype: None,
        svg: None,
        unicode_range: None,
        display: None,
        style: None,
        weight: None,
    }
}

#[test]
fn font_faces() {
    assert_eq!(font().to_html(), "");
    let mut f = font();
    f.woff2 = s("a.woff2?x=1&y=<2>");
    f.svg = s("a.svg");
    f.display = s("swap");
    f.weight = s("400");
    assert_eq!(
        f.to_html(),
        "@font-face { font-display: swap;;\nfont-weight: 400;;\nsrc: url(a.woff2?x=1\\u0026y=\\u003C2\\u003E) format('woff2'), url(a.svg) format('svg');\nfont-family: Inter }"
    );
    let mut f = font();
    f.unicode_range = s("U+0025-00FF");
    assert_eq!(f.to_html(), "@font-face { unicode-range: U+0025-00FF;;\nfont-family: Inter }");
    assert_eq!(ftd::font::escape("a<b>&c"), "a\\u003Cb\\u003E\\u0026c");
    let mut sources = vec![];
    ftd::font::append_src("woff", &s("x"), &mut sources);
    ftd::font::append_src("woff", &None, &mut sources);
    assert_eq!(sources, vec!["url(x) format('woff')".to_string()]);
}
