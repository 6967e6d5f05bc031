//! The virtualized row cache.
//!
//! The cache never blocks and never fails. A row that is not resident is
//! answered with placeholder cells at once, and a fetch for the rows around
//! it is scheduled through the debouncer. Patches pushed by the backend are
//! written into the rows as they arrive.
//!
//! The cache owns neither a clock nor a connection. Its owner starts a timer
//! whenever a fetch is pending, calls [`CellCache::timer_elapsed`] when the
//! timer runs out, sends what [`CellCache::take_outgoing`] hands out, and
//! passes every event of the connection to [`CellCache::process_event`].

use crate::cell::{
    content_of, copy_cells, empty_view, id_high_spec, id_low_spec, Cell, CellContent, CellView,
};
use crate::debouncer::{after_debounce, after_fire, Debouncer, Scheduled};
use crate::loader::{after_fetch, FetchRange, Loader, LoaderView};
use crate::row_store::{
    cells_of, distinct_rows, every_entry, has_row, lemma_push_after_touch, lemma_pushed,
    lemma_pushed_every, lemma_pushed_full, lemma_touched, lemma_touched_every, position_of,
    pushed, row_indices, row_view, rows_sized, store_entries, store_get, store_len, store_limit,
    store_new, store_push, store_rows, touched, Entries,
};
use lru::LruCache;
use vstd::prelude::*;

verus! {

/// The number of rows that the cache holds at most.
pub const CACHE_ROWS: usize = 200;

/// The number of rows before and after a requested row that are fetched
/// with it.
pub const PREFETCH_ROWS: u64 = 100;

/// The quiet time after which a scheduled fetch is sent, in milliseconds.
pub const DEBOUNCE_MS: u64 = 100;

/// The end of the range of cells that is requested as soon as the
/// connection opens.
pub const BOOTSTRAP_CELLS: u64 = 2600;

/// What the connection to the backend reports.
pub enum Event {
    /// The connection is open.
    Opened,
    /// The connection is closed.
    Closed,
    /// A message that holds one cell.
    Message(Cell),
    /// A message that could not be read as a cell.
    Malformed,
    /// Anything else.
    Unexpected,
}

/// What a [`CellCache`] holds.
pub struct CacheView {
    /// The resident rows, most recently used first.
    pub resident: Entries,
    /// The range of the fetch that was scheduled last.
    pub current_range: Option<FetchRange>,
    /// The fetch that waits for its delay to elapse.
    pub pending: Option<Scheduled<FetchRange>>,
    /// The loader: whether the connection is open, and what waits for sending.
    pub loader: LoaderView,
    /// The rows of which the view has yet to be told that they changed.
    pub changed: Seq<u64>,
    /// The number of cells in a row.
    pub row_size: usize,
    /// The number of cells in the grid.
    pub max_cells: u64,
}

/// The row that holds cell `id`.
pub open spec fn row_of(id: u64, row_size: usize) -> u64 {
    (id as int / row_size as int) as u64
}

/// The column of cell `id` in its row.
pub open spec fn col_of(id: u64, row_size: usize) -> int {
    id as int % row_size as int
}

/// Whether the ids of all cells of `row` are 64-bit numbers.
pub open spec fn row_fits(row: u64, row_size: usize) -> bool {
    row * row_size + row_size <= u64::MAX
}

/// The placeholder for `row`: empty cells with the ids of the row's cells.
pub open spec fn placeholder_row(row: u64, row_size: usize) -> Seq<CellView> {
    Seq::new(row_size as nat, |col: int| empty_view((row * row_size + col) as u64))
}

/// Whether the cells of `row` carry the ids of their places: the cell at
/// column `col` has the two halves of the id `row * row_size + col`.
pub open spec fn row_addressed(row: u64, cells: Seq<CellView>, row_size: usize) -> bool {
    &&& row_fits(row, row_size)
    &&& forall|col: int|
        0 <= col < cells.len() ==> (#[trigger] cells[col]).id_low == id_low_spec(
            (row * row_size + col) as u64,
        ) && cells[col].id_high == id_high_spec((row * row_size + col) as u64)
}

/// Whether an entry of the cache carries the ids of its places.
pub open spec fn addressed(row_size: usize) -> spec_fn((u64, Seq<CellView>)) -> bool {
    |entry: (u64, Seq<CellView>)| row_addressed(entry.0, entry.1, row_size)
}

/// The product of two numbers, or the largest 64-bit number where the
/// product is larger.
pub open spec fn saturating_product(a: u64, b: u64) -> u64 {
    if a * b > u64::MAX {
        u64::MAX
    } else {
        (a * b) as u64
    }
}

/// The cells to fetch for `row`: those of the [`PREFETCH_ROWS`] rows before
/// it, of the row itself and of the rows after it up to the row
/// [`PREFETCH_ROWS`] further on, which is left out; cut off at the end of
/// the grid.
pub open spec fn prefetch_window(row: u64, row_size: usize, max_cells: u64) -> FetchRange {
    let first: u64 = if row >= PREFETCH_ROWS {
        (row - PREFETCH_ROWS) as u64
    } else {
        0
    };
    let last: u64 = if row + PREFETCH_ROWS > u64::MAX {
        u64::MAX
    } else {
        (row + PREFETCH_ROWS) as u64
    };
    let end = saturating_product(last, row_size as u64);
    FetchRange {
        start: saturating_product(first, row_size as u64),
        end: if end < max_cells {
            end
        } else {
            max_cells
        },
    }
}

/// Whether cell `id` lies in the range of the fetch that was scheduled last.
pub open spec fn in_flight(current_range: Option<FetchRange>, id: u64) -> bool {
    match current_range {
        Some(range) => range.contains_spec(id),
        None => false,
    }
}

/// What holds of every cache: at most [`CACHE_ROWS`] rows are resident, none
/// of them twice, and each has exactly `row_size` cells.
pub open spec fn view_ok(cache: CacheView) -> bool {
    &&& cache.row_size > 0
    &&& cache.resident.len() <= CACHE_ROWS
    &&& distinct_rows(cache.resident)
    &&& rows_sized(cache.resident, cache.row_size as nat)
}

/// The cells that a request for `row` is answered with: those of the
/// resident row, else the placeholder.
pub open spec fn row_data_cells(before: CacheView, row: u64) -> Seq<CellView> {
    if has_row(before.resident, row) {
        cells_of(before.resident, row)
    } else {
        placeholder_row(row, before.row_size)
    }
}

/// The cache after a request for `row`. A resident row moves to the front
/// and nothing else changes. Else the placeholder is stored; and unless the
/// row's first cell lies in the range that was scheduled last, the window
/// around the row becomes that range and the pending fetch.
pub open spec fn after_row_data(before: CacheView, row: u64) -> CacheView {
    if has_row(before.resident, row) {
        CacheView { resident: touched(before.resident, row), ..before }
    } else {
        let resident = pushed(
            before.resident,
            CACHE_ROWS as nat,
            row,
            placeholder_row(row, before.row_size),
        );
        if in_flight(before.current_range, (row * before.row_size) as u64) {
            CacheView { resident, ..before }
        } else {
            let range = prefetch_window(row, before.row_size, before.max_cells);
            CacheView {
                resident,
                current_range: Some(range),
                pending: after_debounce(before.pending, DEBOUNCE_MS, range),
                ..before
            }
        }
    }
}

/// The cells of the row of `cell` after the patch: those that a request
/// for the row is answered with, but for the cell's column, which holds the
/// cell.
pub open spec fn patched_cells(before: CacheView, cell: Cell) -> Seq<CellView> {
    row_data_cells(before, row_of(cell.id, before.row_size)).update(
        col_of(cell.id, before.row_size),
        content_of(cell)@,
    )
}

/// The cache after `cell` was patched in. Its row stands at the front with
/// the patched cells. A row that was not resident before is reported as
/// changed.
pub open spec fn after_patch(before: CacheView, cell: Cell) -> CacheView {
    let row = row_of(cell.id, before.row_size);
    CacheView {
        resident: pushed(before.resident, CACHE_ROWS as nat, row, patched_cells(before, cell)),
        changed: if has_row(before.resident, row) {
            before.changed
        } else {
            before.changed.push(row)
        },
        ..before
    }
}

/// The cache after the delay of the pending fetch has elapsed: the fetch is
/// handed to the loader and nothing is pending.
pub open spec fn after_timer(before: CacheView) -> CacheView {
    match after_fire(before.pending).0 {
        Some(range) => CacheView {
            pending: None,
            loader: after_fetch(before.loader, range),
            ..before
        },
        None => before,
    }
}

/// The cache after an event of the connection.
pub open spec fn after_event(before: CacheView, event: Event) -> CacheView {
    match event {
        Event::Opened => CacheView {
            loader: after_fetch(
                LoaderView { is_open: true, outgoing: before.loader.outgoing },
                FetchRange { start: 0, end: BOOTSTRAP_CELLS },
            ),
            ..before
        },
        Event::Closed => CacheView {
            loader: LoaderView { is_open: false, outgoing: before.loader.outgoing },
            ..before
        },
        Event::Message(cell) => if row_fits(row_of(cell.id, before.row_size), before.row_size) {
            after_patch(before, cell)
        } else {
            before
        },
        Event::Malformed => before,
        Event::Unexpected => before,
    }
}

/// The cache keeps a fixed number of rows in memory.
///
/// - It asks the backend for rows as they are needed.
/// - It holds the rows that the user looks at, and some more: it fetches the
///   rows around them too, to make scrolling smooth.
/// - It debounces its fetches, so that fast scrolling does not ask for every
///   row on the way.
pub struct CellCache {
    rows: LruCache<u64, Vec<CellContent>>,
    fetcher: Loader,
    debouncer: Debouncer<FetchRange>,
    current_range: Option<FetchRange>,
    max_cells: u64,
    row_size: usize,
    notify: Vec<u64>,
}

impl View for CellCache {
    type V = CacheView;

    closed spec fn view(&self) -> CacheView {
        CacheView {
            resident: store_entries(self.rows),
            current_range: self.current_range,
            pending: self.debouncer@,
            loader: self.fetcher@,
            changed: self.notify@,
            row_size: self.row_size,
            max_cells: self.max_cells,
        }
    }
}

/// Makes the placeholder for `row_index`.
pub fn make_new_row(row_index: u64, row_size: usize) -> (cells: Vec<CellContent>)
    requires
        row_fits(row_index, row_size),
    ensures
        row_view(cells@) == placeholder_row(row_index, row_size),
        cells@.len() == row_size,
{
    let mut cells: Vec<CellContent> = Vec::new();
    let mut i: usize = 0;
    assert(row_index * row_size <= u64::MAX) by (nonlinear_arith)
        requires
            row_index * row_size + row_size <= u64::MAX,
            row_size >= 0,
    ;
    let base: u64 = row_index * (row_size as u64);
    while i < row_size
        invariant
            i <= row_size,
            base == row_index * row_size,
            base + row_size <= u64::MAX,
            cells@.len() == i,
            forall|j: int| 0 <= j < i ==> (#[trigger] cells@[j])@ == empty_view((base + j) as u64),
        decreases row_size - i,
    {
        cells.push(CellContent::empty(base + (i as u64)));
        i += 1;
    }
    assert(row_view(cells@) =~= placeholder_row(row_index, row_size));
    cells
}

impl CellCache {
    /// The limit that the store of rows was made with.
    pub closed spec fn limit(&self) -> nat {
        store_limit(self.rows)
    }

    /// Whether the cache is in order: its store was made for
    /// [`CACHE_ROWS`] rows, it holds no more than that, no row twice, every
    /// row with exactly `row_size` cells, and every cell with the id of its
    /// place.
    pub open spec fn wf(&self) -> bool {
        &&& self.limit() == CACHE_ROWS
        &&& view_ok(self@)
        &&& every_entry(self@.resident, addressed(self@.row_size))
    }

    /// An empty cache over a grid of `width` columns and `height` rows. The
    /// connection is not open, and nothing is scheduled.
    pub fn new(width: usize, height: u64) -> (cache: Self)
        requires
            width > 0,
            width * height <= u64::MAX,
        ensures
            cache.wf(),
            cache@ == (CacheView {
                resident: Seq::<(u64, Seq<CellView>)>::empty(),
                current_range: None,
                pending: None,
                loader: LoaderView { is_open: false, outgoing: Seq::<FetchRange>::empty() },
                changed: Seq::<u64>::empty(),
                row_size: width,
                max_cells: (width * height) as u64,
            }),
    {
        CellCache {
            rows: store_new(CACHE_ROWS),
            fetcher: Loader::new(),
            debouncer: Debouncer::new(),
            current_range: None,
            max_cells: (width as u64) * height,
            row_size: width,
            notify: Vec::new(),
        }
    }

    /// The number of rows in the grid.
    pub fn row_count(&self) -> (count: u64)
        requires
            self.wf(),
        ensures
            count == self@.max_cells as int / self@.row_size as int,
    {
        self.max_cells / (self.row_size as u64)
    }

    /// The number of cells in a row.
    pub fn row_size(&self) -> (size: usize)
        ensures
            size == self@.row_size,
    {
        self.row_size
    }

    /// The number of rows that are resident.
    pub fn resident_rows(&self) -> (count: usize)
        ensures
            count == self@.resident.len(),
    {
        store_len(&self.rows)
    }

    /// The indices of the resident rows, most recently used first.
    pub fn resident_order(&self) -> (rows: Vec<u64>)
        ensures
            rows@ == row_indices(self@.resident),
    {
        store_rows(&self.rows)
    }

    /// The range of the fetch that was scheduled last.
    pub fn current_range(&self) -> (range: Option<FetchRange>)
        ensures
            range == self@.current_range,
    {
        self.current_range
    }

    /// The delay of the pending fetch in milliseconds, or `None` where no
    /// fetch is pending.
    pub fn pending_delay(&self) -> (delay_ms: Option<u64>)
        ensures
            delay_ms == match self@.pending {
                Some(scheduled) => Some(scheduled.delay_ms),
                None => None,
            },
    {
        self.debouncer.delay()
    }

    /// Whether the connection is open.
    pub fn is_open(&self) -> (open: bool)
        ensures
            open == self@.loader.is_open,
    {
        self.fetcher.is_open()
    }

    /// The cells of `row`. A resident row is marked as used and handed out.
    /// Else its placeholder is stored and handed out, and a fetch of the
    /// window around the row is scheduled, unless the fetch that was
    /// scheduled last covers the row's first cell.
    pub fn row_data(&mut self, row: u64) -> (cells: Vec<CellContent>)
        requires
            old(self).wf(),
            row_fits(row, old(self)@.row_size),
        ensures
            final(self).wf(),
            final(self)@ == after_row_data(old(self)@, row),
            row_view(cells@) == row_data_cells(old(self)@, row),
            cells@.len() == old(self)@.row_size,
    {
        proof {
            let before = old(self)@;
            let fresh = placeholder_row(row, before.row_size);
            if has_row(before.resident, row) {
                lemma_touched(before.resident, row);
                lemma_touched_every(before.resident, row, addressed(before.row_size));
            }
            lemma_pushed(before.resident, CACHE_ROWS as nat, row, fresh);
            assert(row_addressed(row, fresh, before.row_size));
            lemma_pushed_every(
                before.resident,
                CACHE_ROWS as nat,
                row,
                fresh,
                addressed(before.row_size),
            );
        }
        match store_get(&mut self.rows, row) {
            Some(cells) => {
                assert(row_view(cells@).len() == cells@.len());
                cells
            },
            None => {
                let cells = make_new_row(row, self.row_size);
                store_push(&mut self.rows, row, copy_cells(&cells));
                assert(row * self.row_size <= u64::MAX) by (nonlinear_arith)
                    requires
                        row * self.row_size + self.row_size <= u64::MAX,
                        self.row_size >= 0,
                ;
                let first_id: u64 = row * (self.row_size as u64);
                let covered = match &self.current_range {
                    Some(range) => range.contains(first_id),
                    None => false,
                };
                if !covered {
                    let range = window_of(row, self.row_size, self.max_cells);
                    self.current_range = Some(range);
                    self.debouncer.debounce(DEBOUNCE_MS, range);
                }
                cells
            },
        }
    }

    /// Writes a cell that the backend pushed into its row. A row that is
    /// not resident is stored as a placeholder first, and is then reported
    /// as changed.
    pub fn apply_patch(&mut self, cell: Cell)
        requires
            old(self).wf(),
            row_fits(row_of(cell.id, old(self)@.row_size), old(self)@.row_size),
        ensures
            final(self).wf(),
            final(self)@ == after_patch(old(self)@, cell),
    {
        let ghost before = self@;
        let row_size: u64 = self.row_size as u64;
        let row: u64 = cell.id / row_size;
        let col: usize = (cell.id % row_size) as usize;
        let found = store_get(&mut self.rows, row);
        let updated: bool = found.is_none();
        let mut cells = match found {
            Some(cells) => cells,
            None => make_new_row(row, self.row_size),
        };
        proof {
            if has_row(before.resident, row) {
                lemma_touched(before.resident, row);
                lemma_push_after_touch(
                    before.resident,
                    CACHE_ROWS as nat,
                    row,
                    patched_cells(before, cell),
                );
            }
            assert(row_view(cells@).len() == cells@.len());
        }
        let ghost base = cells@;
        cells.set(col, CellContent::from(cell));
        assert(row_view(cells@) =~= row_view(base).update(col as int, content_of(cell)@));
        store_push(&mut self.rows, row, cells);
        if updated {
            self.notify.push(row);
        }
        proof {
            let patched = patched_cells(before, cell);
            lemma_pushed(before.resident, CACHE_ROWS as nat, row, patched);
            lemma_cell_position(cell.id, before.row_size);
            if has_row(before.resident, row) {
                lemma_touched_every(before.resident, row, addressed(before.row_size));
            }
            assert(row_addressed(row, row_data_cells(before, row), before.row_size));
            assert(row_addressed(row, patched, before.row_size));
            lemma_pushed_every(
                before.resident,
                CACHE_ROWS as nat,
                row,
                patched,
                addressed(before.row_size),
            );
        }
    }

    /// The delay of the pending fetch has elapsed: hands the fetch to the
    /// loader, which queues it where the connection is open and drops it
    /// after a few tries where it is not.
    pub fn timer_elapsed(&mut self)
        requires
            old(self).wf(),
        ensures
            final(self).wf(),
            final(self)@ == after_timer(old(self)@),
    {
        match self.debouncer.fire() {
            Some(range) => {
                self.fetcher.fetch_with_retry(range);
            },
            None => {},
        }
    }

    /// Takes in an event of the connection. When the connection opens, the
    /// first cells of the grid are requested at once. A cell is patched in,
    /// unless its row reaches past the 64-bit ids. A message that could not
    /// be read, or an event of another kind, changes nothing.
    pub fn process_event(&mut self, event: Event)
        requires
            old(self).wf(),
        ensures
            final(self).wf(),
            final(self)@ == after_event(old(self)@, event),
    {
        match event {
            Event::Message(cell) => {
                if cell_row_fits(cell.id, self.row_size) {
                    self.apply_patch(cell);
                }
            },
            Event::Opened => {
                self.fetcher.set_open(true);
                self.fetcher.fetch(FetchRange { start: 0, end: BOOTSTRAP_CELLS });
            },
            Event::Closed => {
                self.fetcher.set_open(false);
            },
            Event::Malformed => {},
            Event::Unexpected => {},
        }
    }

    /// Hands out the ranges to request from the backend, oldest first, and
    /// leaves none behind.
    pub fn take_outgoing(&mut self) -> (ranges: Vec<FetchRange>)
        requires
            old(self).wf(),
        ensures
            final(self).wf(),
            ranges@ == old(self)@.loader.outgoing,
            final(self)@ == (CacheView {
                loader: LoaderView {
                    is_open: old(self)@.loader.is_open,
                    outgoing: Seq::<FetchRange>::empty(),
                },
                ..old(self)@
            }),
    {
        self.fetcher.take_outgoing()
    }

    /// Hands out the rows of which the view has yet to be told that they
    /// changed, oldest first, and leaves none behind.
    pub fn take_changed(&mut self) -> (rows: Vec<u64>)
        requires
            old(self).wf(),
        ensures
            final(self).wf(),
            rows@ == old(self)@.changed,
            final(self)@ == (CacheView { changed: Seq::<u64>::empty(), ..old(self)@ }),
    {
        let mut rows: Vec<u64> = Vec::new();
        std::mem::swap(&mut rows, &mut self.notify);
        rows
    }
}

/// Whether the ids of all cells of the row of cell `id` are 64-bit numbers.
pub fn cell_row_fits(id: u64, row_size: usize) -> (fits: bool)
    requires
        row_size > 0,
    ensures
        fits == row_fits(row_of(id, row_size), row_size),
{
    let size: u64 = row_size as u64;
    let row: u64 = id / size;
    match row.checked_mul(size) {
        Some(first) => first <= u64::MAX - size,
        None => false,
    }
}

/// The window of cells to fetch for `row`.
pub fn window_of(row: u64, row_size: usize, max_cells: u64) -> (range: FetchRange)
    ensures
        range == prefetch_window(row, row_size, max_cells),
{
    let size: u64 = row_size as u64;
    let first: u64 = if row >= PREFETCH_ROWS {
        row - PREFETCH_ROWS
    } else {
        0
    };
    let last: u64 = match row.checked_add(PREFETCH_ROWS) {
        Some(last) => last,
        None => u64::MAX,
    };
    let start: u64 = match first.checked_mul(size) {
        Some(start) => start,
        None => u64::MAX,
    };
    let end: u64 = match last.checked_mul(size) {
        Some(end) => end,
        None => u64::MAX,
    };
    FetchRange { start, end: if end < max_cells { end } else { max_cells } }
}

/// Every cell lies in exactly one row and column: its id is the row's
/// index times the row size, plus the column, and the column is less than
/// the row size.
pub proof fn lemma_cell_position(id: u64, row_size: usize)
    requires
        row_size > 0,
    ensures
        0 <= col_of(id, row_size) < row_size,
        row_of(id, row_size) * row_size + col_of(id, row_size) == id,
{
    let size = row_size as int;
    let q = id as int / size;
    let r = id as int % size;
    assert(0 <= r < size && q * size + r == id && 0 <= q <= id) by (nonlinear_arith)
        requires
            size > 0,
            id >= 0,
            q == id as int / size,
            r == id as int % size,
    ;
}

/// No cell lies in two places: a row and a column that give the cell's id
/// are the cell's row and column.
pub proof fn lemma_cell_position_unique(id: u64, row_size: usize, row: u64, col: int)
    requires
        row_size > 0,
        0 <= col < row_size,
        row * row_size + col == id,
    ensures
        row == row_of(id, row_size),
        col == col_of(id, row_size),
{
    let size = row_size as int;
    let q = id as int / size;
    let r = id as int % size;
    let row_int = row as int;
    assert(row_int == q && col == r && 0 <= q <= id) by (nonlinear_arith)
        requires
            size > 0,
            id >= 0,
            0 <= col < size,
            row_int >= 0,
            row_int * size + col == id,
            q == id as int / size,
            r == id as int % size,
    ;
}

/// The cells of every row of the grid have 64-bit ids, so every such row can
/// be asked for.
pub proof fn lemma_row_in_grid_fits(cache: CacheView, row: u64)
    requires
        cache.row_size > 0,
        row < cache.max_cells as int / cache.row_size as int,
    ensures
        row_fits(row, cache.row_size),
{
    let size = cache.row_size as int;
    let cells = cache.max_cells as int;
    let row_int = row as int;
    assert(row_int * size + size <= cells) by (nonlinear_arith)
        requires
            size > 0,
            cells >= 0,
            0 <= row_int < cells / size,
    ;
}

/// A request for a row is answered with exactly `row_size` cells, and leaves
/// a cache that holds the row first, at most [`CACHE_ROWS`] rows in all and
/// no row twice.
pub proof fn lemma_row_data_bounded(before: CacheView, row: u64)
    requires
        view_ok(before),
    ensures
        row_data_cells(before, row).len() == before.row_size,
        view_ok(after_row_data(before, row)),
        after_row_data(before, row).resident[0] == (row, row_data_cells(before, row)),
{
    if has_row(before.resident, row) {
        lemma_touched(before.resident, row);
    } else {
        lemma_pushed(
            before.resident,
            CACHE_ROWS as nat,
            row,
            placeholder_row(row, before.row_size),
        );
    }
}

/// A request for a row that is not resident, made of a cache that is full,
/// evicts the least recently used row and no other: the new row stands
/// first, and the rows that were resident follow in their order, but for the
/// last.
pub proof fn lemma_full_cache_evicts_oldest(before: CacheView, row: u64)
    requires
        view_ok(before),
        before.resident.len() == CACHE_ROWS,
        !has_row(before.resident, row),
    ensures
        after_row_data(before, row).resident == seq![
            (row, placeholder_row(row, before.row_size)),
        ] + before.resident.drop_last(),
        after_row_data(before, row).resident.len() == CACHE_ROWS,
        !has_row(after_row_data(before, row).resident, before.resident.last().0),
        forall|i: int|
            0 <= i < CACHE_ROWS - 1 ==> has_row(
                after_row_data(before, row).resident,
                (#[trigger] before.resident[i]).0,
            ),
{
    lemma_pushed_full(
        before.resident,
        CACHE_ROWS as nat,
        row,
        placeholder_row(row, before.row_size),
    );
}

/// A patch for a cell of a row that is not resident, made of a cache that is
/// full, evicts the least recently used row and no other.
pub proof fn lemma_patch_full_cache_evicts_oldest(before: CacheView, cell: Cell)
    requires
        view_ok(before),
        before.resident.len() == CACHE_ROWS,
        !has_row(before.resident, row_of(cell.id, before.row_size)),
    ensures
        after_patch(before, cell).resident == seq![
            (row_of(cell.id, before.row_size), patched_cells(before, cell)),
        ] + before.resident.drop_last(),
        after_patch(before, cell).resident.len() == CACHE_ROWS,
        !has_row(after_patch(before, cell).resident, before.resident.last().0),
        forall|i: int|
            0 <= i < CACHE_ROWS - 1 ==> has_row(
                after_patch(before, cell).resident,
                (#[trigger] before.resident[i]).0,
            ),
        after_patch(before, cell).changed == before.changed.push(
            row_of(cell.id, before.row_size),
        ),
{
    lemma_pushed_full(
        before.resident,
        CACHE_ROWS as nat,
        row_of(cell.id, before.row_size),
        patched_cells(before, cell),
    );
}

/// A request for a row that is not resident, made of a cache that is not
/// full, evicts nothing.
pub proof fn lemma_spare_cache_keeps_all(before: CacheView, row: u64)
    requires
        view_ok(before),
        before.resident.len() < CACHE_ROWS,
        !has_row(before.resident, row),
    ensures
        after_row_data(before, row).resident == seq![
            (row, placeholder_row(row, before.row_size)),
        ] + before.resident,
{
}

/// A patch keeps the cache in order, and its row then stands first with the
/// patched cells.
pub proof fn lemma_patch_bounded(before: CacheView, cell: Cell)
    requires
        view_ok(before),
    ensures
        view_ok(after_patch(before, cell)),
        patched_cells(before, cell).len() == before.row_size,
        after_patch(before, cell).resident[0] == (
            row_of(cell.id, before.row_size),
            patched_cells(before, cell),
        ),
{
    let row = row_of(cell.id, before.row_size);
    if has_row(before.resident, row) {
        lemma_touched(before.resident, row);
    }
    lemma_pushed(before.resident, CACHE_ROWS as nat, row, patched_cells(before, cell));
}

/// A patch for a cell of a resident row changes exactly one entry: the one
/// at the cell's column in the cell's row. The other cells of that row, the
/// other rows and their cells, and the list of changed rows stay as they
/// were.
pub proof fn lemma_patch_resident_row(before: CacheView, cell: Cell)
    requires
        view_ok(before),
        has_row(before.resident, row_of(cell.id, before.row_size)),
    ensures
        ({
            let after = after_patch(before, cell);
            let row = row_of(cell.id, before.row_size);
            let col = col_of(cell.id, before.row_size);
            &&& has_row(after.resident, row)
            &&& cells_of(after.resident, row).len() == before.row_size
            &&& cells_of(after.resident, row)[col] == content_of(cell)@
            &&& forall|other: int|
                0 <= other < before.row_size && other != col ==> cells_of(after.resident, row)[other]
                    == cells_of(before.resident, row)[other]
            &&& forall|other: u64| has_row(after.resident, other) == has_row(before.resident, other)
            &&& forall|other: u64|
                other != row && has_row(before.resident, other) ==> cells_of(after.resident, other)
                    == cells_of(before.resident, other)
            &&& after.resident.len() == before.resident.len()
            &&& after.changed == before.changed
        }),
{
    let row = row_of(cell.id, before.row_size);
    let cells = patched_cells(before, cell);
    let after = after_patch(before, cell).resident;
    lemma_cell_position(cell.id, before.row_size);
    lemma_touched(before.resident, row);
    lemma_push_after_touch(before.resident, CACHE_ROWS as nat, row, cells);
    lemma_pushed(before.resident, CACHE_ROWS as nat, row, cells);
    let moved = touched(before.resident, row);
    assert(position_of(moved, row) == 0) by {
        let at = position_of(moved, row);
        if at != 0 {
            assert(moved[0].0 != moved[at].0);
        }
    }
    assert(after =~= moved.update(0, (row, cells)));
    assert forall|other: u64| has_row(after, other) == has_row(before.resident, other) by {
        if has_row(moved, other) {
            let p = position_of(moved, other);
            assert(after[p].0 == other);
        }
        if has_row(after, other) {
            let p = position_of(after, other);
            assert(moved[p].0 == other);
        }
    }
    assert forall|other: u64| other != row && has_row(before.resident, other) implies cells_of(
        after,
        other,
    ) == cells_of(before.resident, other) by {
        assert(has_row(moved, other));
        assert(has_row(after, other));
        let p = position_of(after, other);
        let q = position_of(moved, other);
        assert(0 <= p < after.len() && after[p].0 == other);
        assert(0 <= q < moved.len() && moved[q].0 == other);
        assert(p != 0);
        assert(moved[p] == after[p]);
        if p != q {
            assert(moved[p].0 != moved[q].0);
        }
        assert(cells_of(moved, other) == cells_of(before.resident, other));
    }
}

} // verus!
