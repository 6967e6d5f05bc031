use sheet_cache::cell::{Cell, CellContent, Color};
use sheet_cache::cell_cache::{
    cell_row_fits, make_new_row, window_of, CellCache, Event, BOOTSTRAP_CELLS, CACHE_ROWS,
    DEBOUNCE_MS, PREFETCH_ROWS,
};
use sheet_cache::loader::FetchRange;

const COLS: usize = 26;
const ROWS: u64 = 40_000_000;

fn range(start: u64, end: u64) -> FetchRange {
    FetchRange { start, end }
}

fn wire(id: u64, raw: &str, computed: &str, background: i32) -> Cell {
    Cell {
        id,
        raw_value: raw.to_string(),
        computed_value: computed.to_string(),
        background,
    }
}

fn placeholder(row: u64) -> Vec<CellContent> {
    (0..COLS as u64).map(|i| CellContent::empty(row * COLS as u64 + i)).collect()
}

#[test]
fn constants_have_their_values() {
    assert_eq!(CACHE_ROWS, 200);
    assert_eq!(PREFETCH_ROWS, 100);
    assert_eq!(DEBOUNCE_MS, 100);
    assert_eq!(BOOTSTRAP_CELLS, 2600);
}

#[test]
fn new_cache_is_empty_and_closed() {
    let mut cache = CellCache::new(COLS, ROWS);
    assert_eq!(cache.row_count(), ROWS);
    assert_eq!(cache.row_size(), COLS);
    assert_eq!(cache.resident_rows(), 0);
    assert_eq!(cache.current_range(), None);
    assert_eq!(cache.pending_delay(), None);
    assert!(!cache.is_open());
    assert_eq!(cache.take_outgoing(), Vec::new());
    assert_eq!(cache.take_changed(), Vec::<u64>::new());
}

#[test]
fn row_count_rounds_down() {
    assert_eq!(CellCache::new(26, 0).row_count(), 0);
    assert_eq!(CellCache::new(3, 5).row_count(), 5);
    assert_eq!(CellCache::new(1, u64::MAX).row_count(), u64::MAX);
}

#[test]
fn make_new_row_addresses_the_cells_of_the_row() {
    let row = make_new_row(2, 3);
    assert_eq!(row, vec![CellContent::empty(6), CellContent::empty(7), CellContent::empty(8)]);
    assert_eq!(make_new_row(9, 0), Vec::new());
}

#[test]
fn every_row_has_row_size_cells() {
    let mut cache = CellCache::new(COLS, ROWS);
    for row in [0, 1, 99, 100, 12_345, ROWS - 1] {
        assert_eq!(cache.row_data(row).len(), COLS);
    }
    let mut narrow = CellCache::new(1, 10);
    assert_eq!(narrow.row_data(9).len(), 1);
}

#[test]
fn fresh_cache_answers_row_zero_with_placeholders_and_schedules_fetch() {
    let mut cache = CellCache::new(COLS, ROWS);
    let row = cache.row_data(0);
    assert_eq!(row.len(), 26);
    for (i, cell) in row.iter().enumerate() {
        assert_eq!(cell.id(), i as u64);
        assert_eq!(cell.raw_value, "");
        assert_eq!(cell.computed_value, "");
        assert_eq!(cell.background_color(), 0);
    }
    assert_eq!(row, placeholder(0));
    assert_eq!(cache.current_range(), Some(range(0, 2600)));
    assert_eq!(cache.pending_delay(), Some(100));
    assert_eq!(cache.resident_rows(), 1);
    // nothing is sent before the delay elapses
    assert_eq!(cache.take_outgoing(), Vec::new());
}

#[test]
fn scheduled_fetch_is_sent_when_timer_elapses_on_open_connection() {
    let mut cache = CellCache::new(COLS, ROWS);
    cache.process_event(Event::Opened);
    assert_eq!(cache.take_outgoing(), vec![range(0, 2600)]);
    cache.row_data(1000);
    cache.timer_elapsed();
    assert_eq!(cache.pending_delay(), None);
    assert_eq!(cache.take_outgoing(), vec![range(900 * 26, 1100 * 26)]);
    cache.timer_elapsed();
    assert_eq!(cache.take_outgoing(), Vec::new());
}

#[test]
fn scheduled_fetch_is_dropped_when_connection_is_not_open() {
    let mut cache = CellCache::new(COLS, ROWS);
    cache.row_data(0);
    cache.timer_elapsed();
    assert_eq!(cache.pending_delay(), None);
    assert_eq!(cache.take_outgoing(), Vec::new());
    // the range stays tracked although nothing was sent
    assert_eq!(cache.current_range(), Some(range(0, 2600)));
}

#[test]
fn opened_sends_bootstrap_range_and_flips_open() {
    let mut cache = CellCache::new(COLS, ROWS);
    cache.process_event(Event::Opened);
    assert!(cache.is_open());
    assert_eq!(cache.take_outgoing(), vec![range(0, 2600)]);
    assert_eq!(cache.resident_rows(), 0);
}

#[test]
fn closed_flips_open_off() {
    let mut cache = CellCache::new(COLS, ROWS);
    cache.process_event(Event::Opened);
    cache.process_event(Event::Closed);
    assert!(!cache.is_open());
    cache.row_data(0);
    cache.timer_elapsed();
    assert_eq!(cache.take_outgoing(), vec![range(0, 2600)]);
}

#[test]
fn each_open_sends_the_bootstrap_range() {
    let mut cache = CellCache::new(COLS, ROWS);
    cache.process_event(Event::Opened);
    cache.process_event(Event::Closed);
    cache.process_event(Event::Opened);
    assert_eq!(cache.take_outgoing(), vec![range(0, 2600), range(0, 2600)]);
}

#[test]
fn patch_for_missing_row_creates_it_and_reports_change() {
    let mut cache = CellCache::new(COLS, ROWS);
    cache.process_event(Event::Message(wire(27, "5", "5", 0)));
    assert_eq!(cache.take_changed(), vec![1]);
    assert_eq!(cache.resident_rows(), 1);
    // a patch schedules no fetch
    assert_eq!(cache.pending_delay(), None);
    assert_eq!(cache.current_range(), None);
    let row = cache.row_data(1);
    let mut expected = placeholder(1);
    expected[1] = CellContent {
        id_low: 27,
        id_high: 0,
        background: Color { red: 0, green: 0, blue: 0, alpha: 0 },
        computed_value: "5".to_string(),
        raw_value: "5".to_string(),
    };
    assert_eq!(row, expected);
    // the read was a hit: nothing scheduled, nothing reported
    assert_eq!(cache.pending_delay(), None);
    assert_eq!(cache.take_changed(), Vec::<u64>::new());
}

#[test]
fn patch_for_resident_row_changes_one_cell_only() {
    let mut cache = CellCache::new(COLS, ROWS);
    cache.row_data(0);
    cache.row_data(2);
    cache.apply_patch(wire(2 * 26 + 25, "x", "y", 0x0102_0304));
    assert_eq!(cache.take_changed(), Vec::<u64>::new());
    assert_eq!(cache.resident_rows(), 2);
    let row = cache.row_data(2);
    let mut expected = placeholder(2);
    expected[25] = CellContent {
        id_low: 77,
        id_high: 0,
        background: Color { red: 1, blue: 2, green: 3, alpha: 4 },
        computed_value: "y".to_string(),
        raw_value: "x".to_string(),
    };
    assert_eq!(row, expected);
    assert_eq!(cache.row_data(0), placeholder(0));
}

#[test]
fn later_patch_wins() {
    let mut cache = CellCache::new(COLS, ROWS);
    cache.apply_patch(wire(3, "a", "a", 0));
    cache.apply_patch(wire(4, "b", "b", 0));
    cache.apply_patch(wire(3, "c", "C", 7));
    assert_eq!(cache.take_changed(), vec![0]);
    let row = cache.row_data(0);
    assert_eq!(row[3].raw_value, "c");
    assert_eq!(row[3].computed_value, "C");
    assert_eq!(row[3].background_color(), 7);
    assert_eq!(row[4].raw_value, "b");
    assert_eq!(row[5], CellContent::empty(5));
}

#[test]
fn malformed_and_unexpected_events_change_nothing() {
    let mut cache = CellCache::new(COLS, ROWS);
    cache.process_event(Event::Opened);
    cache.row_data(3);
    cache.process_event(Event::Malformed);
    cache.process_event(Event::Unexpected);
    assert!(cache.is_open());
    assert_eq!(cache.resident_rows(), 1);
    assert_eq!(cache.pending_delay(), Some(100));
    assert_eq!(cache.take_changed(), Vec::<u64>::new());
    assert_eq!(cache.take_outgoing(), vec![range(0, 2600)]);
}

#[test]
fn patch_whose_row_reaches_past_the_ids_is_dropped() {
    assert!(!cell_row_fits(u64::MAX, 26));
    assert!(cell_row_fits(u64::MAX, 1) == false);
    assert!(cell_row_fits(0, 26));
    assert!(cell_row_fits(1_039_999_999, 26));
    let mut cache = CellCache::new(COLS, ROWS);
    cache.process_event(Event::Message(wire(u64::MAX, "x", "x", 0)));
    assert_eq!(cache.resident_rows(), 0);
    assert_eq!(cache.take_changed(), Vec::<u64>::new());
}

#[test]
fn two_misses_within_the_delay_send_one_fetch_for_the_second_window() {
    let mut cache = CellCache::new(COLS, ROWS);
    cache.process_event(Event::Opened);
    assert_eq!(cache.take_outgoing(), vec![range(0, 2600)]);
    cache.row_data(5);
    assert_eq!(cache.current_range(), Some(range(0, 105 * 26)));
    cache.row_data(105);
    assert_eq!(cache.current_range(), Some(range(5 * 26, 205 * 26)));
    cache.timer_elapsed();
    assert_eq!(cache.take_outgoing(), vec![range(130, 5330)]);
    cache.timer_elapsed();
    assert_eq!(cache.take_outgoing(), Vec::new());
}

#[test]
fn miss_inside_the_tracked_range_schedules_nothing() {
    let mut cache = CellCache::new(COLS, ROWS);
    cache.row_data(0);
    cache.timer_elapsed();
    cache.row_data(50);
    assert_eq!(cache.current_range(), Some(range(0, 2600)));
    assert_eq!(cache.pending_delay(), None);
    assert_eq!(cache.resident_rows(), 2);
    // the end of the range is left out
    cache.row_data(100);
    assert_eq!(cache.current_range(), Some(range(0, 200 * 26)));
    assert_eq!(cache.pending_delay(), Some(100));
}

#[test]
fn hit_schedules_nothing() {
    let mut cache = CellCache::new(COLS, ROWS);
    cache.row_data(500);
    cache.timer_elapsed();
    cache.apply_patch(wire(10_000 * 26, "far", "far", 0));
    cache.row_data(10_000);
    assert_eq!(cache.current_range(), Some(range(400 * 26, 600 * 26)));
    assert_eq!(cache.pending_delay(), None);
}

#[test]
fn window_is_cut_off_at_the_grid() {
    assert_eq!(window_of(0, 26, 1_040_000_000), range(0, 2600));
    assert_eq!(window_of(150, 26, 1_040_000_000), range(50 * 26, 250 * 26));
    assert_eq!(window_of(39_999_999, 26, 1_040_000_000), range(39_999_899 * 26, 1_040_000_000));
    assert_eq!(window_of(3, 10, 50), range(0, 50));
    assert_eq!(window_of(u64::MAX, 2, 100), range(u64::MAX, 100));
    assert_eq!(window_of(u64::MAX - 50, 1, u64::MAX), range(u64::MAX - 150, u64::MAX));
    let mut cache = CellCache::new(10, 5);
    cache.row_data(3);
    assert_eq!(cache.current_range(), Some(range(0, 50)));
}

#[test]
fn cache_never_holds_more_than_its_limit() {
    let mut cache = CellCache::new(COLS, ROWS);
    for row in 0..1000u64 {
        cache.row_data(row * 7);
        assert!(cache.resident_rows() <= 200);
    }
    assert_eq!(cache.resident_rows(), 200);
    for id in 0..500u64 {
        cache.apply_patch(wire(id * 1_000_003, "v", "v", 1));
        assert!(cache.resident_rows() <= 200);
    }
}

#[test]
fn the_201st_row_evicts_the_least_recently_used() {
    let mut cache = CellCache::new(COLS, ROWS);
    // mark rows 0 and 1 so that a placeholder shows that they left
    cache.apply_patch(wire(0, "zero", "zero", 0));
    cache.apply_patch(wire(26, "one", "one", 0));
    for row in 2..200u64 {
        cache.row_data(row);
    }
    assert_eq!(cache.resident_rows(), 200);
    // use row 0: row 1 is now the least recently used
    assert_eq!(cache.row_data(0)[0].raw_value, "zero");
    cache.row_data(200);
    assert_eq!(cache.resident_rows(), 200);
    // row 0 stayed
    assert_eq!(cache.row_data(0)[0].raw_value, "zero");
    // row 1 left: reading it gives the placeholder again
    assert_eq!(cache.row_data(1), placeholder(1));
    assert_eq!(cache.resident_rows(), 200);
}

#[test]
fn patch_counts_as_use() {
    let mut cache = CellCache::new(COLS, ROWS);
    cache.apply_patch(wire(0, "zero", "zero", 0));
    cache.apply_patch(wire(26, "one", "one", 0));
    for row in 2..200u64 {
        cache.row_data(row);
    }
    // patch row 0 again: row 1 is now the least recently used
    cache.apply_patch(wire(1, "again", "again", 0));
    cache.apply_patch(wire(200 * 26, "new", "new", 0));
    assert_eq!(cache.take_changed(), vec![0, 1, 200]);
    let row0 = cache.row_data(0);
    assert_eq!(row0[0].raw_value, "zero");
    assert_eq!(row0[1].raw_value, "again");
    assert_eq!(cache.row_data(1), placeholder(1));
}

#[test]
fn take_outgoing_and_take_changed_leave_nothing() {
    let mut cache = CellCache::new(COLS, ROWS);
    cache.process_event(Event::Opened);
    cache.apply_patch(wire(52, "a", "a", 0));
    assert_eq!(cache.take_outgoing().len(), 1);
    assert_eq!(cache.take_outgoing().len(), 0);
    assert_eq!(cache.take_changed(), vec![2]);
    assert_eq!(cache.take_changed(), Vec::<u64>::new());
    assert!(cache.is_open());
}

#[test]
fn opened_sends_the_bootstrap_message() {
    let mut cache = CellCache::new(COLS, ROWS);
    cache.process_event(Event::Opened);
    let messages: Vec<String> = cache.take_outgoing().iter().map(|r| r.to_message()).collect();
    assert_eq!(messages, vec!["{\"from\":0,\"to\":2600}".to_string()]);
}

#[test]
fn rows_are_kept_most_recently_used_first() {
    let mut cache = CellCache::new(COLS, ROWS);
    assert_eq!(cache.resident_order(), Vec::<u64>::new());
    cache.row_data(1);
    cache.row_data(2);
    cache.row_data(3);
    assert_eq!(cache.resident_order(), vec![3, 2, 1]);
    // a read moves the row to the front
    cache.row_data(1);
    assert_eq!(cache.resident_order(), vec![1, 3, 2]);
    // a read of the first row changes nothing
    cache.row_data(1);
    assert_eq!(cache.resident_order(), vec![1, 3, 2]);
    // a patch moves its row to the front, resident or not
    cache.apply_patch(wire(2 * 26 + 4, "p", "p", 0));
    assert_eq!(cache.resident_order(), vec![2, 1, 3]);
    cache.apply_patch(wire(9 * 26, "q", "q", 0));
    assert_eq!(cache.resident_order(), vec![9, 2, 1, 3]);
}

#[test]
fn full_cache_drops_the_last_row_in_order() {
    let mut cache = CellCache::new(COLS, ROWS);
    for row in 0..200u64 {
        cache.row_data(row);
    }
    let mut expected: Vec<u64> = (0..200u64).rev().collect();
    assert_eq!(cache.resident_order(), expected);
    cache.row_data(0);
    cache.row_data(500);
    // row 0 moved to the front, then row 500 pushed row 1 out
    expected = vec![500, 0];
    expected.extend((2..200u64).rev());
    assert_eq!(cache.resident_order(), expected);
    assert_eq!(cache.resident_rows(), 200);
}
