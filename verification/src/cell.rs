//! Cell representations and the conversions between them.
//!
//! The backend speaks in [`Cell`]s with a flat 64-bit id and a packed 32-bit
//! background. The view works with [`CellContent`], whose id is split into two
//! 32-bit halves and whose background is a structured [`Color`].

use vstd::prelude::*;

verus! {

/// A color of four 8-bit channels.
#[derive(Clone, Copy, Debug, PartialEq, Eq, Structural)]
pub struct Color {
    pub red: u8,
    pub green: u8,
    pub blue: u8,
    pub alpha: u8,
}

/// The cell as it comes from the backend.
#[derive(Clone, Debug, PartialEq, Eq)]
pub struct Cell {
    pub id: u64,
    pub raw_value: String,
    pub computed_value: String,
    pub background: i32,
}

/// A request to update a cell. The computed value is left out: the backend
/// recomputes it.
#[derive(Clone, Debug, PartialEq, Eq)]
pub struct UpdateCellRequest {
    pub id: u64,
    pub raw_value: String,
    pub background: i32,
}

/// The cell as the view edits it.
#[derive(Clone, Debug, PartialEq, Eq)]
pub struct CellContent {
    pub id_low: i32,
    pub id_high: i32,
    pub background: Color,
    pub computed_value: String,
    pub raw_value: String,
}

/// What a [`CellContent`] holds, with its texts as sequences of characters.
pub struct CellView {
    pub id_low: i32,
    pub id_high: i32,
    pub background: Color,
    pub computed_value: Seq<char>,
    pub raw_value: Seq<char>,
}

impl View for CellContent {
    type V = CellView;

    open spec fn view(&self) -> CellView {
        CellView {
            id_low: self.id_low,
            id_high: self.id_high,
            background: self.background,
            computed_value: self.computed_value@,
            raw_value: self.raw_value@,
        }
    }
}

/// The color that a fresh cell has: every channel zero.
pub open spec fn default_color() -> Color {
    Color { red: 0, green: 0, blue: 0, alpha: 0 }
}

/// The channels of a packed background, most significant byte first:
/// red, blue, green, alpha.
pub open spec fn unpack_color_spec(background: i32) -> Color {
    let bits = background as u32;
    Color {
        red: (bits >> 24) as u8,
        blue: ((bits >> 16) & 0xff) as u8,
        green: ((bits >> 8) & 0xff) as u8,
        alpha: (bits & 0xff) as u8,
    }
}

/// The packed background of a color, most significant byte first:
/// red, blue, green, alpha.
pub open spec fn pack_color_spec(color: Color) -> i32 {
    (((color.red as u32) << 24) | ((color.blue as u32) << 16) | ((color.green as u32) << 8)
        | (color.alpha as u32)) as i32
}

/// The low 32 bits of an id, as the view stores them.
pub open spec fn id_low_spec(id: u64) -> i32 {
    (id as u32) as i32
}

/// The high 32 bits of an id, as the view stores them.
pub open spec fn id_high_spec(id: u64) -> i32 {
    ((id >> 32) as u32) as i32
}

/// The id whose halves are `id_low` and `id_high`.
pub open spec fn join_id_spec(id_low: i32, id_high: i32) -> u64 {
    ((id_low as u32) as u64) | (((id_high as u32) as u64) << 32)
}

/// The placeholder that stands for cell `id` before its data arrives.
pub open spec fn empty_view(id: u64) -> CellView {
    CellView {
        id_low: id_low_spec(id),
        id_high: id_high_spec(id),
        background: default_color(),
        computed_value: Seq::<char>::empty(),
        raw_value: Seq::<char>::empty(),
    }
}

/// The view's form of a cell from the backend: the id split in two, the
/// background unpacked, the texts kept.
pub open spec fn content_of(cell: Cell) -> CellContent {
    CellContent {
        id_low: id_low_spec(cell.id),
        id_high: id_high_spec(cell.id),
        background: unpack_color_spec(cell.background),
        computed_value: cell.computed_value,
        raw_value: cell.raw_value,
    }
}

/// The update request for an edited cell: the id joined, the background
/// packed, the raw text kept.
pub open spec fn request_of(cell: CellContent) -> UpdateCellRequest {
    UpdateCellRequest {
        id: join_id_spec(cell.id_low, cell.id_high),
        raw_value: cell.raw_value,
        background: pack_color_spec(cell.background),
    }
}

/// Splits a packed background into its channels.
pub fn unpack_color(background: i32) -> (color: Color)
    ensures
        color == unpack_color_spec(background),
{
    let bits: u32 = background as u32;
    Color {
        red: (bits >> 24) as u8,
        blue: ((bits >> 16) & 0xff) as u8,
        green: ((bits >> 8) & 0xff) as u8,
        alpha: (bits & 0xff) as u8,
    }
}

/// Packs the channels of a color into one 32-bit integer.
pub fn pack_color(color: Color) -> (background: i32)
    ensures
        background == pack_color_spec(color),
{
    let bits: u32 = ((color.red as u32) << 24) | ((color.blue as u32) << 16) | ((color.green as u32)
        << 8) | (color.alpha as u32);
    bits as i32
}

/// Packing the channels of any 32-bit background gives that background again.
pub proof fn lemma_pack_unpack(background: i32)
    ensures
        pack_color_spec(unpack_color_spec(background)) == background,
{
    let bits = background as u32;
    let r = (bits >> 24) as u8;
    let b = ((bits >> 16) & 0xff) as u8;
    let g = ((bits >> 8) & 0xff) as u8;
    let a = (bits & 0xff) as u8;
    assert((((r as u32) << 24) | ((b as u32) << 16) | ((g as u32) << 8) | (a as u32)) == bits)
        by (bit_vector)
        requires
            r == (bits >> 24) as u8,
            b == ((bits >> 16) & 0xff) as u8,
            g == ((bits >> 8) & 0xff) as u8,
            a == (bits & 0xff) as u8,
    ;
    assert((bits as i32) == background) by (bit_vector)
        requires
            bits == background as u32,
    ;
}

/// Unpacking the packed form of any color gives that color again.
pub proof fn lemma_unpack_pack(color: Color)
    ensures
        unpack_color_spec(pack_color_spec(color)) == color,
{
    let r = color.red;
    let b = color.blue;
    let g = color.green;
    let a = color.alpha;
    let bits = ((r as u32) << 24) | ((b as u32) << 16) | ((g as u32) << 8) | (a as u32);
    assert(((bits as i32) as u32) == bits) by (bit_vector);
    assert((bits >> 24) as u8 == r && ((bits >> 16) & 0xff) as u8 == b && ((bits >> 8) & 0xff) as u8
        == g && (bits & 0xff) as u8 == a) by (bit_vector)
        requires
            bits == ((r as u32) << 24) | ((b as u32) << 16) | ((g as u32) << 8) | (a as u32),
    ;
}

/// Joining the two halves that an id was split into gives that id again.
pub proof fn lemma_split_join(id: u64)
    ensures
        join_id_spec(id_low_spec(id), id_high_spec(id)) == id,
{
    let low = (id as u32) as i32;
    let high = ((id >> 32) as u32) as i32;
    assert((((low as u32) as u64) | (((high as u32) as u64) << 32)) == id) by (bit_vector)
        requires
            low == (id as u32) as i32,
            high == ((id >> 32) as u32) as i32,
    ;
}

/// After a cell has gone from the wire to the view and back into a request,
/// the request carries the cell's id, raw value and background unchanged.
pub proof fn lemma_cell_round_trip(cell: Cell)
    ensures
        request_of(content_of(cell)) == (UpdateCellRequest {
            id: cell.id,
            raw_value: cell.raw_value,
            background: cell.background,
        }),
{
    lemma_split_join(cell.id);
    lemma_pack_unpack(cell.background);
}

impl CellContent {
    /// A new empty cell: the placeholder for cell `id`.
    pub fn empty(id: u64) -> (cell: CellContent)
        ensures
            cell@ == empty_view(id),
    {
        CellContent {
            id_low: (id as u32) as i32,
            id_high: ((id >> 32) as u32) as i32,
            background: Color { red: 0, green: 0, blue: 0, alpha: 0 },
            computed_value: String::new(),
            raw_value: String::new(),
        }
    }

    /// The cell's background in its packed form.
    pub fn background_color(&self) -> (background: i32)
        ensures
            background == pack_color_spec(self.background),
    {
        pack_color(self.background)
    }

    /// The flat id that the two halves stand for.
    pub open spec fn id_spec(&self) -> u64 {
        join_id_spec(self.id_low, self.id_high)
    }

    /// The flat id of the cell, put together from its two halves.
    pub fn id(&self) -> (id: u64)
        ensures
            id == self.id_spec(),
    {
        ((self.id_low as u32) as u64) | (((self.id_high as u32) as u64) << 32)
    }
}

/// Copies the cells of a row.
pub fn copy_cells(cells: &Vec<CellContent>) -> (copy: Vec<CellContent>)
    ensures
        copy@ == cells@,
{
    let mut copy: Vec<CellContent> = Vec::new();
    let mut i: usize = 0;
    while i < cells.len()
        invariant
            i <= cells@.len(),
            copy@ == cells@.take(i as int),
        decreases cells@.len() - i,
    {
        let cell = &cells[i];
        copy.push(
            CellContent {
                id_low: cell.id_low,
                id_high: cell.id_high,
                background: cell.background,
                computed_value: cell.computed_value.clone(),
                raw_value: cell.raw_value.clone(),
            },
        );
        i += 1;
        assert(copy@ =~= cells@.take(i as int));
    }
    assert(cells@.take(cells@.len() as int) =~= cells@);
    copy
}

impl vstd::std_specs::convert::FromSpecImpl<Cell> for CellContent {
    open spec fn obeys_from_spec() -> bool {
        true
    }

    open spec fn from_spec(cell: Cell) -> CellContent {
        content_of(cell)
    }
}

/// Cells from the backend become cell contents that the view can edit.
impl From<Cell> for CellContent {
    fn from(cell: Cell) -> (content: CellContent) {
        CellContent {
            id_low: (cell.id as u32) as i32,
            id_high: ((cell.id >> 32) as u32) as i32,
            background: unpack_color(cell.background),
            computed_value: cell.computed_value,
            raw_value: cell.raw_value,
        }
    }
}

impl<'a> vstd::std_specs::convert::FromSpecImpl<&'a CellContent> for UpdateCellRequest {
    open spec fn obeys_from_spec() -> bool {
        true
    }

    open spec fn from_spec(cell: &'a CellContent) -> UpdateCellRequest {
        request_of(*cell)
    }
}

/// An edited cell becomes the request that sends its edit to the backend.
impl<'a> From<&'a CellContent> for UpdateCellRequest {
    fn from(cell: &'a CellContent) -> (request: UpdateCellRequest) {
        UpdateCellRequest {
            id: cell.id(),
            raw_value: cell.raw_value.clone(),
            background: cell.background_color(),
        }
    }
}

} // verus!
