use sheet_cache::cell::{
    copy_cells, pack_color, unpack_color, Cell, CellContent, Color, UpdateCellRequest,
};

fn wire(id: u64, raw: &str, computed: &str, background: i32) -> Cell {
    Cell {
        id,
        raw_value: raw.to_string(),
        computed_value: computed.to_string(),
        background,
    }
}

#[test]
fn unpack_uses_red_blue_green_alpha_order() {
    let color = unpack_color(0x1122_3344);
    assert_eq!(color, Color { red: 0x11, blue: 0x22, green: 0x33, alpha: 0x44 });
}

#[test]
fn pack_uses_red_blue_green_alpha_order() {
    let color = Color { red: 0x11, green: 0x33, blue: 0x22, alpha: 0x44 };
    assert_eq!(pack_color(color), 0x1122_3344);
}

#[test]
fn pack_of_high_red_is_negative() {
    let color = Color { red: 0xff, green: 0, blue: 0, alpha: 0 };
    assert_eq!(pack_color(color), i32::from_be_bytes([0xff, 0, 0, 0]));
    assert_eq!(pack_color(color), -16777216);
}

#[test]
fn unpack_agrees_with_big_endian_bytes() {
    for background in [0, 1, -1, i32::MIN, i32::MAX, 0x0102_0304, -123_456_789] {
        let [red, blue, green, alpha] = background.to_be_bytes();
        assert_eq!(unpack_color(background), Color { red, green, blue, alpha });
    }
}

#[test]
fn color_round_trip_from_background() {
    for background in [0, 1, -1, i32::MIN, i32::MAX, 0x0102_0304, -123_456_789, 255, 256] {
        assert_eq!(pack_color(unpack_color(background)), background);
    }
}

#[test]
fn color_round_trip_from_color() {
    for (red, green, blue, alpha) in [(0, 0, 0, 0), (255, 255, 255, 255), (1, 2, 3, 4), (200, 0, 7, 128)] {
        let color = Color { red, green, blue, alpha };
        assert_eq!(unpack_color(pack_color(color)), color);
    }
}

#[test]
fn empty_cell_is_blank_with_its_id() {
    let cell = CellContent::empty(7);
    assert_eq!(cell.id_low, 7);
    assert_eq!(cell.id_high, 0);
    assert_eq!(cell.raw_value, "");
    assert_eq!(cell.computed_value, "");
    assert_eq!(cell.background, Color { red: 0, green: 0, blue: 0, alpha: 0 });
    assert_eq!(cell.background_color(), 0);
    assert_eq!(cell.id(), 7);
}

#[test]
fn id_is_split_into_two_halves() {
    let cell = CellContent::empty(0x0000_0001_0000_0005);
    assert_eq!(cell.id_low, 5);
    assert_eq!(cell.id_high, 1);
    assert_eq!(cell.id(), 0x0000_0001_0000_0005);
}

#[test]
fn id_halves_with_high_bits_are_negative() {
    let cell = CellContent::empty(u64::MAX);
    assert_eq!(cell.id_low, -1);
    assert_eq!(cell.id_high, -1);
    assert_eq!(cell.id(), u64::MAX);
    let cell = CellContent::empty(0x8000_0000);
    assert_eq!(cell.id_low, i32::MIN);
    assert_eq!(cell.id_high, 0);
    assert_eq!(cell.id(), 0x8000_0000);
}

#[test]
fn id_round_trip() {
    for id in [0, 1, 25, 26, 1_039_999_999, 0xffff_ffff, 0x1_0000_0000, u64::MAX - 1, u64::MAX] {
        assert_eq!(CellContent::empty(id).id(), id);
    }
}

#[test]
fn cell_becomes_cell_content() {
    let content = CellContent::from(wire(0x2_0000_0003, "=A1", "42", 0x0a0b_0c0d));
    assert_eq!(content.id_low, 3);
    assert_eq!(content.id_high, 2);
    assert_eq!(content.raw_value, "=A1");
    assert_eq!(content.computed_value, "42");
    assert_eq!(content.background, Color { red: 0x0a, blue: 0x0b, green: 0x0c, alpha: 0x0d });
}

#[test]
fn cell_content_becomes_update_request() {
    let content = CellContent {
        id_low: 3,
        id_high: 2,
        background: Color { red: 0x0a, blue: 0x0b, green: 0x0c, alpha: 0x0d },
        computed_value: "42".to_string(),
        raw_value: "=A1".to_string(),
    };
    let request = UpdateCellRequest::from(&content);
    assert_eq!(
        request,
        UpdateCellRequest { id: 0x2_0000_0003, raw_value: "=A1".to_string(), background: 0x0a0b_0c0d }
    );
}

#[test]
fn cell_round_trip_keeps_id_raw_value_and_background() {
    let cell = wire(u64::MAX - 17, "hello", "HELLO", -559_038_737);
    let request = UpdateCellRequest::from(&CellContent::from(cell.clone()));
    assert_eq!(request.id, cell.id);
    assert_eq!(request.raw_value, cell.raw_value);
    assert_eq!(request.background, cell.background);
}

#[test]
fn copy_cells_copies_every_cell() {
    let cells = vec![
        CellContent::from(wire(1, "a", "b", 5)),
        CellContent::empty(2),
        CellContent::from(wire(3, "c", "d", -5)),
    ];
    assert_eq!(copy_cells(&cells), cells);
    assert_eq!(copy_cells(&Vec::new()), Vec::<CellContent>::new());
}
