use devdash::layout::{Constraint, Layout, LayoutItem};
use devdash::rect::Rect;

#[test]
fn test_horizontal_flex_layout() {
    let area = Rect::new(0, 0, 100, 20);
    let layout = Layout::horizontal(vec![
        LayoutItem::widget(Constraint::Flex(2)),
        LayoutItem::widget(Constraint::Flex(1)),
    ]);
    let areas = layout.calculate(area);

    assert_eq!(areas.len(), 2);
    assert_eq!(areas[0].width, 66);
    assert_eq!(areas[1].width, 34);
    assert_eq!(areas[0].height, 20);
    assert_eq!(areas[1].height, 20);
}

#[test]
fn test_horizontal_fixed_layout() {
    let area = Rect::new(0, 0, 100, 20);
    let layout = Layout::horizontal(vec![
        LayoutItem::widget(Constraint::Fixed(30)),
        LayoutItem::widget(Constraint::Fixed(20)),
    ]);
    let areas = layout.calculate(area);

    assert_eq!(areas.len(), 2);
    assert_eq!(areas[0].width, 30);
    assert_eq!(areas[1].width, 20);
    assert_eq!(areas[0].x, 0);
    assert_eq!(areas[1].x, 30);
}

#[test]
fn test_vertical_percentage_layout() {
    let area = Rect::new(0, 0, 50, 100);
    let layout = Layout::vertical(vec![
        LayoutItem::widget(Constraint::Percentage(60)),
        LayoutItem::widget(Constraint::Percentage(40)),
    ]);
    let areas = layout.calculate(area);

    assert_eq!(areas.len(), 2);
    assert_eq!(areas[0].height, 60);
    assert_eq!(areas[1].height, 40);
    assert_eq!(areas[0].y, 0);
    assert_eq!(areas[1].y, 60);
}

#[test]
fn test_empty_constraints() {
    let area = Rect::new(0, 0, 100, 20);
    let layout = Layout::horizontal(vec![]);
    let areas = layout.calculate(area);

    assert_eq!(areas.len(), 0);
}

#[test]
fn test_nested_layout() {
    let area = Rect::new(0, 0, 100, 20);
    let layout = Layout::horizontal(vec![
        LayoutItem::widget(Constraint::Flex(1)),
        LayoutItem::nested(Layout::vertical(vec![
            LayoutItem::widget(Constraint::Flex(1)),
            LayoutItem::widget(Constraint::Flex(1)),
            LayoutItem::widget(Constraint::Flex(1)),
        ])),
    ]);
    let areas = layout.calculate(area);

    assert_eq!(areas.len(), 4);
    assert_eq!(areas[0].width, 50);
    assert_eq!(areas[1].width, 50);
    assert_eq!(areas[1].height, 6);
    assert_eq!(areas[2].width, 50);
    assert_eq!(areas[2].height, 7);
    assert_eq!(areas[3].width, 50);
    assert_eq!(areas[3].height, 7);
}

#[test]
fn test_deeply_nested_layout() {
    let area = Rect::new(0, 0, 100, 20);
    let layout = Layout::horizontal(vec![
        LayoutItem::widget(Constraint::Flex(1)),
        LayoutItem::nested(Layout::vertical(vec![
            LayoutItem::widget(Constraint::Flex(1)),
            LayoutItem::nested(Layout::horizontal(vec![
                LayoutItem::widget(Constraint::Flex(1)),
                LayoutItem::widget(Constraint::Flex(1)),
            ])),
        ])),
    ]);
    let areas = layout.calculate(area);

    assert_eq!(areas.len(), 4);
    assert_eq!(areas[0].width, 50);
    assert_eq!(areas[1].width, 50);
    assert_eq!(areas[2].width, 25);
    assert_eq!(areas[3].width, 25);
}

#[test]
fn test_percentage_is_clamped_to_hundred() {
    let area = Rect::new(0, 0, 100, 20);
    let layout = Layout::horizontal(vec![LayoutItem::widget(Constraint::Percentage(250))]);
    let areas = layout.calculate(area);
    assert_eq!(areas.len(), 1);
    assert_eq!(areas[0].width, 100);
}

#[test]
fn test_fixed_is_capped_by_the_budget() {
    let area = Rect::new(0, 0, 40, 10);
    let layout = Layout::horizontal(vec![
        LayoutItem::widget(Constraint::Fixed(30)),
        LayoutItem::widget(Constraint::Fixed(30)),
    ]);
    let areas = layout.calculate(area);
    assert_eq!(areas[0].width, 30);
    assert_eq!(areas[1].width, 10);
}

#[test]
fn test_min_max_are_zero_size_placeholders() {
    let area = Rect::new(0, 0, 100, 20);
    let layout = Layout::horizontal(vec![
        LayoutItem::widget(Constraint::Min(10)),
        LayoutItem::widget(Constraint::Max(10)),
        LayoutItem::widget(Constraint::Flex(1)),
    ]);
    let areas = layout.calculate(area);
    assert_eq!(areas[0].width, 0);
    assert_eq!(areas[1].width, 0);
    assert_eq!(areas[2].width, 100);
}

#[test]
fn test_zero_budget_gives_flex_items_nothing() {
    let area = Rect::new(0, 0, 10, 20);
    let layout = Layout::horizontal(vec![
        LayoutItem::widget(Constraint::Fixed(10)),
        LayoutItem::widget(Constraint::Flex(1)),
    ]);
    let areas = layout.calculate(area);
    assert_eq!(areas[0].width, 10);
    assert_eq!(areas[1].width, 0);
}

#[test]
fn test_rounding_leftover_goes_to_trailing_flex_items() {
    // Height 20 over three equal shares: 6 + 7 + 7, the two leftover cells
    // landing on the trailing items.
    let area = Rect::new(0, 0, 30, 20);
    let layout = Layout::vertical(vec![
        LayoutItem::widget(Constraint::Flex(1)),
        LayoutItem::widget(Constraint::Flex(1)),
        LayoutItem::widget(Constraint::Flex(1)),
    ]);
    let areas = layout.calculate(area);
    assert_eq!(areas.len(), 3);
    assert_eq!(areas[0].height, 6);
    assert_eq!(areas[1].height, 7);
    assert_eq!(areas[2].height, 7);
    assert_eq!(areas[0].y, 0);
    assert_eq!(areas[1].y, 6);
    assert_eq!(areas[2].y, 13);
}
