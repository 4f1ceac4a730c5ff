use med::layout::{Error, Layout, Rect, Split, Vec2};

type Result<T> = std::result::Result<T, Error>;

#[test]
fn rect_hsplit() -> Result<()> {
    let a = Rect::new(0, 0, 4, 10).hsplit([Split::Fixed(2), Split::Fixed(2)])?;
    assert_eq!(a[0], Rect::new(0, 0, 2, 10));
    assert_eq!(a[1], Rect::new(2, 0, 2, 10));

    let b = Rect::new(0, 0, 4, 10).hsplit([Split::Fixed(1), Split::Fill, Split::Fixed(1)])?;
    assert_eq!(b[0], Rect::new(0, 0, 1, 10));
    assert_eq!(b[1], Rect::new(1, 0, 2, 10));
    assert_eq!(b[2], Rect::new(3, 0, 1, 10));

    Ok(())
}

#[test]
fn rect_vsplit() -> Result<()> {
    let a = Rect::new(0, 0, 10, 4).vsplit([Split::Fixed(2), Split::Fixed(2)])?;
    assert_eq!(a[0], Rect::new(0, 0, 10, 2));
    assert_eq!(a[1], Rect::new(0, 2, 10, 2));

    let b = Rect::new(0, 0, 10, 4).vsplit([Split::Fixed(1), Split::Fill, Split::Fixed(1)])?;
    assert_eq!(b[0], Rect::new(0, 0, 10, 1));
    assert_eq!(b[1], Rect::new(0, 1, 10, 2));
    assert_eq!(b[2], Rect::new(0, 3, 10, 1));
    Ok(())
}

#[test]
fn not_enough_space() {
    let res = Rect::new(0, 0, 10, 10).hsplit([Split::Fixed(20)]);
    assert_eq!(res, Err(Error::NotEnoughSpace));
    let res = Rect::new(0, 0, 10, 10).vsplit([Split::Fixed(20)]);
    assert_eq!(res, Err(Error::NotEnoughSpace));
}

#[test]
fn fills_share_the_rest_and_the_last_takes_the_remainder() -> Result<()> {
    // 11 - 2 = 9 cells for three fills: 3, 3, 3; with 10 cells: 2, 2, 4.
    let a = Rect::new(5, 1, 11, 3).hsplit([Split::Fill, Split::Fixed(2), Split::Fill, Split::Fill])?;
    assert_eq!(a[0], Rect::new(5, 1, 3, 3));
    assert_eq!(a[1], Rect::new(8, 1, 2, 3));
    assert_eq!(a[2], Rect::new(10, 1, 3, 3));
    assert_eq!(a[3], Rect::new(13, 1, 3, 3));

    let b = Rect::new(0, 0, 3, 10).vsplit([Split::Fill, Split::Fill, Split::Fill, Split::Fixed(0)])?;
    let c = Rect::new(0, 0, 3, 12).vsplit([Split::Fill, Split::Fixed(2), Split::Fill, Split::Fill])?;
    assert_eq!(b[0].h, 3);
    assert_eq!(b[1].h, 3);
    assert_eq!(b[2].h, 4);
    assert_eq!(b[3], Rect::new(0, 10, 3, 0));
    assert_eq!(c[0].h + c[1].h + c[2].h + c[3].h, 12);
    Ok(())
}

#[test]
fn segments_cover_the_available_length() -> Result<()> {
    let a = Rect::new(2, 0, 17, 1).hsplit([Split::Fill, Split::Fill, Split::Fixed(4)])?;
    let total: u16 = a.iter().map(|r| r.w).sum();
    assert_eq!(total, 17);
    assert_eq!(a[2].x + a[2].w, 2 + 17);

    // Without a fill split the segments hold only the fixed lengths.
    let b = Rect::new(0, 0, 17, 1).hsplit([Split::Fixed(3), Split::Fixed(4)])?;
    assert_eq!(b[1], Rect::new(3, 0, 4, 1));
    Ok(())
}

#[test]
fn fill_needs_one_cell() {
    assert_eq!(
        Rect::new(0, 0, 2, 1).hsplit([Split::Fixed(2), Split::Fill]),
        Err(Error::NotEnoughSpace)
    );
    assert!(Rect::new(0, 0, 3, 1).hsplit([Split::Fixed(2), Split::Fill]).is_ok());
    assert_eq!(
        Rect::new(0, 0, 1, 65535).vsplit([Split::Fixed(65535), Split::Fixed(1)]),
        Err(Error::NotEnoughSpace)
    );
}

#[test]
fn layout_from_screen() -> Result<()> {
    let l = Layout::from_screen(Rect::new(0, 0, 80, 24))?;
    assert_eq!(l.screen, Rect::new(0, 0, 80, 24));
    assert_eq!(l.main, Rect::new(0, 0, 80, 23));
    assert_eq!(l.status, Rect::new(0, 23, 80, 1));
    assert_eq!(l.gutter, Rect::new(0, 0, 5, 23));
    assert_eq!(l.buffer, Rect::new(5, 0, 75, 23));

    assert!(Layout::from_screen(Rect::new(0, 0, 5, 24)).is_err());
    assert!(Layout::from_screen(Rect::new(0, 0, 80, 1)).is_err());
    Ok(())
}

#[test]
fn layout_error_message() {
    assert_eq!(Error::NotEnoughSpace.message(), "Not enought space");
}

#[test]
fn vec2_new() {
    let v = Vec2::new(3usize, 4usize);
    assert_eq!(v, Vec2 { x: 3, y: 4 });
    assert_eq!(Vec2::<usize>::default(), Vec2::new(0, 0));
}
