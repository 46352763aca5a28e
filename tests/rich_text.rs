use forma_text::rich_text::RichText;

#[derive(Debug, Clone, PartialEq)]
enum Prop {
    Bold,
    Size(u32),
}

fn ranges(t: &RichText<Prop>) -> Vec<(usize, usize, Prop)> {
    t.attributes().iter().map(|(r, p)| (r.start, r.end, p.clone())).collect()
}

#[test]
fn new_text_is_empty_with_defaults() {
    let t = RichText::new(vec![Prop::Size(30), Prop::Bold]);
    assert_eq!(t.text(), "");
    assert_eq!(t.attribute_count(), 0);
    assert_eq!(t.byte_length(), 0);
    assert_eq!(t.defaults(), &vec![Prop::Size(30), Prop::Bold]);
}

#[test]
fn add_str_appends_without_ranges() {
    let mut t: RichText<Prop> = RichText::new(vec![]);
    t.add_str("Headline");
    t.add_str(" more");
    assert_eq!(t.text(), "Headline more");
    assert_eq!(t.attribute_count(), 0);
}

#[test]
fn add_single_registers_byte_range() {
    let mut t: RichText<Prop> = RichText::new(vec![]);
    t.add_str("Hi ");
    t.add_single("there", Prop::Bold);
    assert_eq!(t.text(), "Hi there");
    assert_eq!(ranges(&t), vec![(3, 8, Prop::Bold)]);
    assert_eq!(t.slice(3..8), "there");
}

#[test]
fn ranges_count_bytes_not_chars() {
    let mut t: RichText<Prop> = RichText::new(vec![]);
    t.add_single("é", Prop::Bold);
    t.add_single("😀", Prop::Size(12));
    assert_eq!(t.byte_length(), 6);
    assert_eq!(ranges(&t), vec![(0, 2, Prop::Bold), (2, 6, Prop::Size(12))]);
    assert_eq!(t.slice(2..6), "😀");
    assert_eq!(t.slice(0..2), "é");
}

#[test]
fn add_many_shares_one_range_in_order() {
    let mut t: RichText<Prop> = RichText::new(vec![]);
    t.add_str("ab");
    t.add_many("cde", vec![Prop::Bold, Prop::Size(9)]);
    assert_eq!(t.attribute_count(), 2);
    assert_eq!(ranges(&t), vec![(2, 5, Prop::Bold), (2, 5, Prop::Size(9))]);
}

#[test]
fn add_many_with_no_property_adds_no_range() {
    let mut t: RichText<Prop> = RichText::new(vec![]);
    t.add_many("cde", vec![]);
    assert_eq!(t.text(), "cde");
    assert_eq!(t.attribute_count(), 0);
}

#[test]
fn newline_appends_one_byte() {
    let mut t = RichText::new(vec![Prop::Bold]);
    t.add_str("a");
    t.add_newline();
    t.add_single("b", Prop::Bold);
    assert_eq!(t.text(), "a\nb");
    assert_eq!(ranges(&t), vec![(2, 3, Prop::Bold)]);
}

#[test]
fn later_ranges_may_cover_earlier_text_positions() {
    let mut t: RichText<Prop> = RichText::new(vec![]);
    t.add_single("xy", Prop::Bold);
    t.add_single("", Prop::Size(1));
    assert_eq!(ranges(&t), vec![(0, 2, Prop::Bold), (2, 2, Prop::Size(1))]);
    assert_eq!(t.slice(2..2), "");
}

#[test]
fn emoji_range_is_recognized() {
    let mut t: RichText<Prop> = RichText::new(vec![]);
    t.add_str("Hi");
    t.add_str("😀");
    assert!(t.is_emoji_range(2..6));
    assert!(!t.is_emoji_range(0..2));
    assert!(!t.is_emoji_range(0..1));
}
