use hal9001::deck::{
    cell_style, render_plan, Area, CellStyle, CellView, ReadOutcome, ScreenView, TermColor, TerminalScreen,
};

fn cell(symbol: &str, wide_continuation: bool) -> Option<CellView> {
    Some(CellView {
        symbol: symbol.to_string(),
        wide_continuation,
        bold: true,
        dim: false,
        italic: false,
        underline: true,
        inverse: false,
        fg: TermColor::Indexed(2),
        bg: TermColor::Default,
    })
}

#[test]
fn styles_carry_each_attribute() {
    let s = cell_style(true, false, true, false, true, TermColor::Rgb(1, 2, 3), TermColor::Default);
    assert_eq!(
        s,
        CellStyle { bold: true, dim: false, italic: true, underlined: false, reversed: true, fg: Some(TermColor::Rgb(1, 2, 3)), bg: None }
    );
}

#[test]
fn plan_clips_skips_continuations_and_places_cursor() {
    let view = ScreenView {
        rows: 3,
        cols: 4,
        cells: vec![
            vec![cell("a", false), cell("界", false), cell("", true), cell("b", false)],
            vec![cell("c", false), None, cell("d", false), cell("e", false)],
            vec![cell("f", false), cell("g", false), cell("h", false), cell("i", false)],
        ],
        cursor: (2, 3),
        hide_cursor: false,
    };
    let plan = render_plan(&view, Area { x: 5, y: 1, width: 3, height: 2 });
    assert_eq!((plan.x, plan.y), (5, 1));
    assert_eq!(plan.cells.len(), 2);
    assert_eq!(plan.cells[0].len(), 3);
    assert_eq!(plan.cells[0][1].as_ref().map(|c| c.0.as_str()), Some("界"));
    assert!(plan.cells[0][2].is_none());
    assert!(plan.cells[1][1].is_none());
    assert!(plan.cells[0][0].as_ref().unwrap().1.bold);
    assert_eq!(plan.cursor, Some((5 + 2, 1 + 1)));
    let hidden = ScreenView { hide_cursor: true, ..view };
    assert_eq!(render_plan(&hidden, Area { x: 0, y: 0, width: 10, height: 10 }).cursor, None);
}

#[test]
fn screen_takes_output_in_order() {
    let mut screen = TerminalScreen::new(4, 10);
    assert!(screen.on_read(ReadOutcome::Data(b"hi\x1b[1mX".to_vec())));
    assert!(screen.on_read(ReadOutcome::Interrupted));
    assert_eq!(screen.output_seq(), 1);
    assert!(!screen.has_exited());
    let view = screen.view(2, 3);
    assert_eq!((view.rows, view.cols), (4, 10));
    assert_eq!(view.cells.len(), 2);
    assert_eq!(view.cells[0].len(), 3);
    assert_eq!(view.cells[0][0].as_ref().unwrap().symbol, "h");
    assert!(view.cells[0][2].as_ref().unwrap().bold);
    assert_eq!(view.cursor, (0, 3));
    assert!(!screen.on_read(ReadOutcome::Eof));
    assert!(screen.has_exited());
    screen.resize(2, 5);
    assert_eq!(screen.view(10, 10).rows, 2);
}
