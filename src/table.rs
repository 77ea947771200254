//! The paged table: rows in append order on fixed-capacity pages, a logical
//! row index resolved to a page and an offset within it.

use vstd::prelude::*;

use crate::row::{rendered, Row, RowView, COLUMN_EMAIL_SIZE, COLUMN_USERNAME_SIZE, ROW_SIZE};
use crate::text::decimal;
use crate::statement::{Statement, StatementKind, StatementView};

verus! {

/// Bytes in one page.
pub const PAGE_SIZE: usize = 4096;

/// Most pages a table may hold.
pub const TABLE_MAX_PAGES: usize = 100;

/// Row slots in one page.
pub const ROWS_PER_PAGE: usize = PAGE_SIZE / ROW_SIZE;

/// Most rows a table may hold.
pub const TABLE_MAX_ROWS: usize = ROWS_PER_PAGE * TABLE_MAX_PAGES;

/// The layout constants: a page holds at least one row, and the row
/// capacity is the product of slots per page and pages.
pub proof fn lemma_layout()
    ensures
        0 < ROWS_PER_PAGE <= PAGE_SIZE,
        TABLE_MAX_ROWS == ROWS_PER_PAGE * TABLE_MAX_PAGES,
        TABLE_MAX_ROWS <= PAGE_SIZE * TABLE_MAX_PAGES,
{
    let page = PAGE_SIZE as int;
    let row = ROW_SIZE as int;
    assert(0 < row <= page);
    assert(0 < page / row <= page) by (nonlinear_arith)
        requires
            0 < row <= page,
    ;
}

/// The page that holds logical row `i`.
pub open spec fn page_of(i: int) -> int {
    i / ROWS_PER_PAGE as int
}

/// The slot within its page that holds logical row `i`.
pub open spec fn offset_of(i: int) -> int {
    i % ROWS_PER_PAGE as int
}

/// Logical row `i` is the slot at `offset_of(i)` of page `page_of(i)`, and
/// that offset lies within a page.
proof fn lemma_address(i: int)
    requires
        0 <= i,
    ensures
        0 <= page_of(i),
        0 <= offset_of(i) < ROWS_PER_PAGE,
        i == page_of(i) * ROWS_PER_PAGE + offset_of(i),
{
    lemma_layout();
    let d = ROWS_PER_PAGE as int;
    vstd::arithmetic::div_mod::lemma_fundamental_div_mod(i, d);
    vstd::arithmetic::div_mod::lemma_mod_pos_bound(i, d);
    vstd::arithmetic::div_mod::lemma_div_pos_is_pos(i, d);
    assert(d * (i / d) == (i / d) * d) by (nonlinear_arith);
}

/// The slot at `offset` of page `page` is logical row `page * ROWS_PER_PAGE + offset`.
proof fn lemma_slot(page: int, offset: int)
    requires
        0 <= page,
        0 <= offset < ROWS_PER_PAGE,
    ensures
        page_of(page * ROWS_PER_PAGE + offset) == page,
        offset_of(page * ROWS_PER_PAGE + offset) == offset,
{
    lemma_layout();
    vstd::arithmetic::div_mod::lemma_fundamental_div_mod_converse(
        page * ROWS_PER_PAGE + offset,
        ROWS_PER_PAGE as int,
        page,
        offset,
    );
}

/// Row addressing is a bijection between the logical indices below
/// `TABLE_MAX_ROWS` and the slots of the first `TABLE_MAX_PAGES` pages: each
/// index lands on a slot that gives the index back, and each slot is the
/// address of the index it gives.
pub proof fn addressing_is_bijective(i: int, page: int, offset: int)
    requires
        0 <= i < TABLE_MAX_ROWS,
        0 <= page < TABLE_MAX_PAGES,
        0 <= offset < ROWS_PER_PAGE,
    ensures
        0 <= page_of(i) < TABLE_MAX_PAGES,
        0 <= offset_of(i) < ROWS_PER_PAGE,
        page_of(i) * ROWS_PER_PAGE + offset_of(i) == i,
        0 <= page * ROWS_PER_PAGE + offset < TABLE_MAX_ROWS,
        page_of(page * ROWS_PER_PAGE + offset) == page,
        offset_of(page * ROWS_PER_PAGE + offset) == offset,
{
    lemma_layout();
    lemma_address(i);
    lemma_slot(page, offset);
    let d = ROWS_PER_PAGE as int;
    let q = page_of(i);
    let m = TABLE_MAX_PAGES as int;
    assert(q < m) by (nonlinear_arith)
        requires
            0 < d,
            0 <= q,
            q * d <= i,
            i < d * m,
    ;
    assert(0 <= page * d + offset < d * m) by (nonlinear_arith)
        requires
            0 < d,
            0 <= page < m,
            0 <= offset < d,
    ;
}

/// Row `n` falls on the page after the last one in use, or on that last page.
proof fn lemma_next_page(n: int)
    requires
        0 <= n,
    ensures
        pages_for(n + 1) == page_of(n) + 1,
        page_of(n) == pages_for(n) || page_of(n) + 1 == pages_for(n),
{
    lemma_layout();
    lemma_address(n);
    if n > 0 {
        lemma_address(n - 1);
        let q = page_of(n - 1);
        let r = offset_of(n - 1);
        if r + 1 < ROWS_PER_PAGE {
            lemma_slot(q, r + 1);
        } else {
            assert(n == (q + 1) * ROWS_PER_PAGE) by (nonlinear_arith)
                requires
                    n - 1 == q * ROWS_PER_PAGE + r,
                    r + 1 == ROWS_PER_PAGE,
            ;
            lemma_slot(q + 1, 0);
        }
    } else {
        lemma_slot(0, 0);
    }
}

/// Pages in use by a table of `n` rows.
pub open spec fn pages_for(n: int) -> int {
    if n == 0 {
        0
    } else {
        page_of(n - 1) + 1
    }
}

/// How an execution ended.
#[derive(Clone, Copy, Debug, PartialEq, Eq, Structural)]
pub enum ExecuteResult {
    TableFull,
    Executed,
}

/// How an insert into a table holding `rows` ends.
pub open spec fn insert_outcome(rows: Seq<RowView>) -> ExecuteResult {
    if rows.len() < TABLE_MAX_ROWS {
        ExecuteResult::Executed
    } else {
        ExecuteResult::TableFull
    }
}

/// The rows after inserting `row` into a table holding `rows`: appended
/// where there is room, unchanged where the table is full.
pub open spec fn inserted(rows: Seq<RowView>, row: RowView) -> Seq<RowView> {
    if rows.len() < TABLE_MAX_ROWS {
        rows.push(row)
    } else {
        rows
    }
}

/// The lines a selection over `rows` yields: each row's text form, in order.
pub open spec fn selected(rows: Seq<RowView>) -> Seq<Seq<char>> {
    rows.map_values(|r: RowView| rendered(r))
}

/// The rows after inserting each row of `batch` in turn into a table
/// holding `rows`.
pub open spec fn inserted_all(rows: Seq<RowView>, batch: Seq<RowView>) -> Seq<RowView>
    decreases batch.len(),
{
    if batch.len() == 0 {
        rows
    } else {
        inserted(inserted_all(rows, batch.drop_last()), batch.last())
    }
}

/// While there is room for the whole batch, inserting it appends it.
proof fn lemma_inserted_all(rows: Seq<RowView>, batch: Seq<RowView>)
    requires
        rows.len() + batch.len() <= TABLE_MAX_ROWS,
    ensures
        inserted_all(rows, batch) == rows + batch,
    decreases batch.len(),
{
    if batch.len() > 0 {
        lemma_inserted_all(rows, batch.drop_last());
        assert(rows + batch.drop_last().push(batch.last()) =~= rows + batch);
        assert(batch.drop_last().push(batch.last()) =~= batch);
    } else {
        assert(rows + batch =~= rows);
    }
}

/// Inserting a row of valid fields into a table with room and then
/// selecting yields the lines of the rows already stored followed by
/// exactly `(<id>, '<username>', '<email>')`: no padding, nothing cut.
pub proof fn insert_then_select(
    rows: Seq<RowView>,
    id: u32,
    username: Seq<char>,
    email: Seq<char>,
)
    requires
        rows.len() < TABLE_MAX_ROWS,
        username.len() <= COLUMN_USERNAME_SIZE,
        email.len() <= COLUMN_EMAIL_SIZE,
    ensures
        selected(inserted(rows, RowView { id, username, email })) == selected(rows).push(
            seq!['('] + decimal(id as nat) + seq![',', ' ', '\''] + username + seq![
                '\'',
                ',',
                ' ',
                '\'',
            ] + email + seq!['\'', ')'],
        ),
{
    let row = RowView { id, username, email };
    assert(selected(rows.push(row)) =~= selected(rows).push(rendered(row)));
}

/// Into an empty table every one of the first `TABLE_MAX_ROWS` inserts
/// succeeds; the table then holds `TABLE_MAX_ROWS` rows, and one more insert
/// fails with `TableFull` and leaves the rows as they are.
pub proof fn capacity_boundary(batch: Seq<RowView>, extra: RowView)
    requires
        batch.len() == TABLE_MAX_ROWS,
    ensures
        forall|k: int|
            0 <= k < TABLE_MAX_ROWS ==> insert_outcome(
                #[trigger] inserted_all(Seq::empty(), batch.take(k)),
            ) == ExecuteResult::Executed,
        inserted_all(Seq::empty(), batch).len() == TABLE_MAX_ROWS,
        insert_outcome(inserted_all(Seq::empty(), batch)) == ExecuteResult::TableFull,
        inserted(inserted_all(Seq::empty(), batch), extra) == inserted_all(Seq::empty(), batch),
{
    assert forall|k: int| 0 <= k < TABLE_MAX_ROWS implies insert_outcome(
        #[trigger] inserted_all(Seq::empty(), batch.take(k)),
    ) == ExecuteResult::Executed by {
        lemma_inserted_all(Seq::empty(), batch.take(k));
    }
    lemma_inserted_all(Seq::empty(), batch);
}

/// Selecting after inserting a batch of at most `TABLE_MAX_ROWS` rows into
/// an empty table yields one line per row, in the order of insertion, with
/// none dropped, merged or moved.
pub proof fn insertion_order_kept(batch: Seq<RowView>)
    requires
        batch.len() <= TABLE_MAX_ROWS,
    ensures
        inserted_all(Seq::empty(), batch) == batch,
        selected(inserted_all(Seq::empty(), batch)).len() == batch.len(),
        forall|i: int|
            0 <= i < batch.len() ==> #[trigger] selected(inserted_all(Seq::empty(), batch))[i]
                == rendered(batch[i]),
{
    lemma_inserted_all(Seq::empty(), batch);
    assert(Seq::<RowView>::empty() + batch =~= batch);
}

/// A fixed-capacity block of row slots.
pub struct Page {
    data: Vec<Row>,
}

impl Page {
    /// Exactly `ROWS_PER_PAGE` slots, each holding a well-formed row.
    pub closed spec fn wf(&self) -> bool {
        &&& self.data@.len() == ROWS_PER_PAGE
        &&& forall|k: int| 0 <= k < self.data@.len() ==> (#[trigger] self.data@[k]).wf()
    }

    /// Stores `row` in the slot at `offset`.
    fn write(&mut self, offset: usize, row: Row)
        requires
            old(self).wf(),
            offset < ROWS_PER_PAGE,
            row.wf(),
        ensures
            final(self).wf(),
            final(self).data@ == old(self).data@.update(offset as int, row),
    {
        self.data.set(offset, row);
    }

    /// The rows in the page's slots.
    pub closed spec fn slots(&self) -> Seq<RowView> {
        self.data@.map_values(|r: Row| r@)
    }

    /// A page whose every slot holds the blank row.
    pub fn new() -> (r: Self)
        ensures
            r.wf(),
            r.slots().len() == ROWS_PER_PAGE,
            forall|k: int| 0 <= k < ROWS_PER_PAGE ==> #[trigger] r.slots()[k] == (RowView {
                id: 0,
                username: Seq::empty(),
                email: Seq::empty(),
            }),
    {
        let mut data: Vec<Row> = Vec::with_capacity(ROWS_PER_PAGE);
        let mut k: usize = 0;
        while k < ROWS_PER_PAGE
            invariant
                k <= ROWS_PER_PAGE,
                data@.len() == k,
                forall|j: int| 0 <= j < k ==> (#[trigger] data@[j]).wf() && data@[j]@ == (RowView {
                    id: 0,
                    username: Seq::empty(),
                    email: Seq::empty(),
                }),
            decreases ROWS_PER_PAGE - k,
        {
            data.push(Row::blank());
            k = k + 1;
        }
        Page { data }
    }
}

/// The whole dataset: its pages and the number of rows stored.
pub struct Table {
    num_rows: usize,
    pages: Vec<Page>,
}

impl View for Table {
    type V = Seq<RowView>;

    /// The stored rows in logical order, row `i` read at its page and offset.
    closed spec fn view(&self) -> Seq<RowView> {
        Seq::new(self.num_rows as nat, |i: int| self.pages@[page_of(i)].data@[offset_of(i)]@)
    }
}

impl Table {
    /// At most `TABLE_MAX_ROWS` rows, exactly the pages they need, every page
    /// well formed.
    pub closed spec fn wf(&self) -> bool {
        &&& self.num_rows <= TABLE_MAX_ROWS
        &&& self.pages@.len() == pages_for(self.num_rows as int)
        &&& forall|p: int| 0 <= p < self.pages@.len() ==> (#[trigger] self.pages@[p]).wf()
    }

    /// An empty table: no rows and no pages.
    pub fn new() -> (r: Self)
        ensures
            r.wf(),
            r@ == Seq::<RowView>::empty(),
    {
        let r = Table { num_rows: 0, pages: Vec::with_capacity(TABLE_MAX_PAGES) };
        proof {
            assert(r@ =~= Seq::<RowView>::empty());
        }
        r
    }

    /// Runs a statement: an insert stores its row as `execute_insert` does; a
    /// select appends the text form of every stored row to `output`, in
    /// logical order, and always succeeds.
    pub fn execute_statement(&mut self, statement: &Statement, output: &mut Vec<String>) -> (r:
        ExecuteResult)
        requires
            old(self).wf(),
            statement.wf(),
        ensures
            final(self).wf(),
            match statement@ {
                StatementView::Insert(row) => {
                    &&& final(self)@ == inserted(old(self)@, row)
                    &&& r == insert_outcome(old(self)@)
                    &&& final(output)@ == old(output)@
                },
                StatementView::Select => {
                    &&& final(self)@ == old(self)@
                    &&& r == ExecuteResult::Executed
                    &&& final(output).deep_view() == old(output).deep_view() + selected(old(self)@)
                },
            },
    {
        match statement.kind {
            StatementKind::Insert => match statement.row_to_insert {
                Some(row) => self.execute_insert(row),
                None => ExecuteResult::Executed,
            },
            StatementKind::Select => {
                let ghost before = output.deep_view();
                let mut lines = self.execute_select();
                let ghost added = lines.deep_view();
                output.append(&mut lines);
                proof {
                    assert(output.deep_view() =~= before + added);
                }
                ExecuteResult::Executed
            },
        }
    }

    /// Appends `row` where there is room: it lands at the page and offset of
    /// index `num_rows`, the page created first where it does not exist yet.
    /// A full table is left as it is and reports `TableFull`.
    pub fn execute_insert(&mut self, row: Row) -> (r: ExecuteResult)
        requires
            old(self).wf(),
            row.wf(),
        ensures
            final(self).wf(),
            final(self)@ == inserted(old(self)@, row@),
            r == insert_outcome(old(self)@),
    {
        if self.num_rows >= TABLE_MAX_ROWS {
            return ExecuteResult::TableFull;
        }
        let ghost before = self@;
        let n = self.num_rows;
        let page_num = self.page_num(n);
        let page_offset = self.page_offset(n);
        proof {
            lemma_layout();
            lemma_address(n as int);
            lemma_next_page(n as int);
            addressing_is_bijective(n as int, 0, 0);
        }
        let ghost old_pages = self.pages@;
        self.ensure_page(page_num);
        let ghost mid_pages = self.pages@;
        self.pages[page_num].write(page_offset, row);
        self.num_rows = n + 1;
        proof {
            assert forall|i: int| 0 <= i < n implies #[trigger] self@[i] == before[i] by {
                lemma_address(i);
                let p = page_of(i);
                vstd::arithmetic::div_mod::lemma_div_is_ordered(i, n - 1, ROWS_PER_PAGE as int);
                assert(p < old_pages.len());
                assert(mid_pages[p] == old_pages[p]);
                if p == page_num {
                    assert(offset_of(i) != page_offset);
                }
            }
            assert(self@ =~= before.push(row@));
        }
        ExecuteResult::Executed
    }

    /// The text form of every stored row, in logical order: row `i` read at
    /// the page and offset of index `i`.
    pub fn execute_select(&self) -> (r: Vec<String>)
        requires
            self.wf(),
        ensures
            r.deep_view() == selected(self@),
    {
        let mut lines: Vec<String> = Vec::new();
        let mut i: usize = 0;
        while i < self.num_rows
            invariant
                self.wf(),
                i <= self.num_rows,
                lines.deep_view() == selected(self@).take(i as int),
            decreases self.num_rows - i,
        {
            let page_num = self.page_num(i);
            let page_offset = self.page_offset(i);
            proof {
                lemma_address(i as int);
                vstd::arithmetic::div_mod::lemma_div_is_ordered(
                    i as int,
                    self.num_rows - 1,
                    ROWS_PER_PAGE as int,
                );
            }
            let row = self.pages[page_num].data[page_offset];
            let line = row.render();
            let ghost prev = lines.deep_view();
            lines.push(line);
            proof {
                assert(lines.deep_view() =~= prev.push(line@));
                assert(selected(self@).take(i + 1) =~= selected(self@).take(i as int).push(
                    rendered(self@[i as int]),
                ));
            }
            i = i + 1;
        }
        proof {
            assert(selected(self@).take(i as int) =~= selected(self@));
        }
        lines
    }

    /// Grows the pages to at least `page_num + 1`, the new page blank.
    fn ensure_page(&mut self, page_num: usize)
        requires
            page_num <= old(self).pages@.len(),
            forall|p: int|
                0 <= p < old(self).pages@.len() ==> (#[trigger] old(self).pages@[p]).wf(),
        ensures
            final(self).num_rows == old(self).num_rows,
            page_num < final(self).pages@.len(),
            final(self).pages@.len() == if page_num == old(self).pages@.len() {
                page_num + 1
            } else {
                old(self).pages@.len() as int
            },
            forall|p: int|
                0 <= p < old(self).pages@.len() ==> final(self).pages@[p] == old(self).pages@[p],
            forall|p: int|
                0 <= p < final(self).pages@.len() ==> (#[trigger] final(self).pages@[p]).wf(),
    {
        if page_num == self.pages.len() {
            self.pages.push(Page::new());
        }
    }

    /// The number of rows stored.
    pub fn num_rows(&self) -> (r: usize)
        requires
            self.wf(),
        ensures
            r == self@.len(),
    {
        self.num_rows
    }

    /// The page that holds logical row `row_index`.
    pub fn page_num(&self, row_index: usize) -> (r: usize)
        ensures
            r == page_of(row_index as int),
    {
        proof {
            lemma_layout();
        }
        row_index / ROWS_PER_PAGE
    }

    /// The slot within its page that holds logical row `row_index`.
    pub fn page_offset(&self, row_index: usize) -> (r: usize)
        ensures
            r == offset_of(row_index as int),
    {
        proof {
            lemma_layout();
        }
        row_index % ROWS_PER_PAGE
    }
}

} // verus!
