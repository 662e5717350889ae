use dirtable::render::render;
use dirtable::row::Row;
use dirtable::style::{Palette, Style};

#[test]
fn styled_output_without_color_support_is_the_plain_output() {
    colored::control::set_override(false);
    let rows = vec![
        Row::new("a.txt".to_string(), vec!["hi".to_string(), "x".to_string()]),
        Row::new("bb.txt".to_string(), vec!["hello".to_string()]),
    ];
    let styled = render(&rows, 10, &Style::Styled(Palette::standard()));
    assert_eq!(styled, render(&rows, 10, &Style::Plain));
    assert_eq!(styled, vec!["a.txt   hi     x".to_string(), "bb.txt  hello".to_string()]);
}
