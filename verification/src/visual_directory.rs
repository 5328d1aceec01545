//! Layout of the printable photo directory: the size of the grid, the text of its
//! cells, the formatting requests that shape it, and the redirect that ends the
//! consent flow.
use vstd::prelude::*;
use vstd::string::{StrSliceExecFns, StringExecFns};
use crate::data::VisualPerson;
use crate::text::{decimal, decimal_text, nth_word, pairs_view, same_text, second_word};

verus! {

/// Spreadsheet rows that fit on one printed portrait page. It follows from the
/// row height, which the photo height decides.
pub const NUM_ROWS_PER_PRINTED_SHEET: u32 = 11;

/// Columns of people laid side by side on one printed page.
pub const NUM_COLS_PER_PRINTED_SHEET: u32 = 3;

/// Spreadsheet columns taken by one person: the photo and the name.
pub const NUM_COLS_PER_PERSON: u32 = 2;

/// Width in pixels of a column of names.
pub const NAME_COLUMN_WIDTH: i64 = 130;

/// Width of a column of photos and height of every row, in pixels.
pub const PHOTO_SIZE: i64 = 80;

/// Width in pixels of the thin column between two blocks of people.
pub const SEPARATOR_WIDTH: i64 = 10;

/// The title of the spreadsheet that holds the directory.
pub const DIRECTORY_TITLE: &'static str = "Photo Directory";

/// The locale of the spreadsheet that holds the directory.
pub const DIRECTORY_LOCALE: &'static str = "en";

/// The time zone of the spreadsheet that holds the directory.
pub const DIRECTORY_TIME_ZONE: &'static str = "America/Los_Angeles";

/// What the consent must allow: reading and writing spreadsheets.
pub const CONSENT_SCOPE: &'static str = "https://www.googleapis.com/auth/spreadsheets";

/// The local address at which the redirect that ends the consent is received.
pub const REDIRECT_ADDRESS: &'static str = "127.0.0.1:8080";

/// People shown on one printed page: `NUM_COLS_PER_PRINTED_SHEET` columns of
/// `NUM_ROWS_PER_PRINTED_SHEET` people each. It is written out so that a quotient
/// by it can be computed; `lemma_people_per_page` ties it to the two constants.
#[verifier::inline]
pub open spec fn people_per_page() -> nat {
    33
}

/// A page shows as many people as its columns of people times its rows.
pub proof fn lemma_people_per_page()
    ensures
        people_per_page() == NUM_COLS_PER_PRINTED_SHEET * NUM_ROWS_PER_PRINTED_SHEET,
{
}

/// Rows of the grid for `n` people: a full page's rows for every full page, then
/// the people left over, capped at one page's rows.
pub open spec fn grid_rows(n: nat) -> nat {
    let left = n % people_per_page();
    (n / people_per_page()) * (NUM_ROWS_PER_PRINTED_SHEET as nat) + if left
        <= NUM_ROWS_PER_PRINTED_SHEET {
        left
    } else {
        NUM_ROWS_PER_PRINTED_SHEET as nat
    }
}

/// Columns of the grid: the columns of every block of people, and one separator
/// between neighbouring blocks.
pub open spec fn grid_columns() -> nat {
    (NUM_COLS_PER_PRINTED_SHEET * NUM_COLS_PER_PERSON + (NUM_COLS_PER_PRINTED_SHEET - 1)) as nat
}

/// The grid has no more rows than there are people.
pub proof fn lemma_grid_rows_bounded(n: nat)
    ensures
        grid_rows(n) <= n,
{
}

fn rows_for(num_members: usize) -> (rows: usize)
    ensures
        rows == grid_rows(num_members as nat),
{
    let per_page: usize = (NUM_COLS_PER_PRINTED_SHEET * NUM_ROWS_PER_PRINTED_SHEET) as usize;
    let full_pages: usize = num_members / per_page;
    let left: usize = num_members % per_page;
    let page_rows: usize = NUM_ROWS_PER_PRINTED_SHEET as usize;
    proof {
        lemma_grid_rows_bounded(num_members as nat);
    }
    let extra: usize = if left <= page_rows {
        left
    } else {
        page_rows
    };
    full_pages * page_rows + extra
}

/// Rows and columns of the grid that shows `num_members` people.
pub fn size_of_spreadsheet(num_members: usize) -> (size: (u32, u32))
    requires
        grid_rows(num_members as nat) <= u32::MAX,
    ensures
        size.0 == grid_rows(num_members as nat),
        size.1 == grid_columns(),
{
    let num_columns: u32 = NUM_COLS_PER_PRINTED_SHEET * NUM_COLS_PER_PERSON + (
    NUM_COLS_PER_PRINTED_SHEET - 1);
    let num_rows: usize = rows_for(num_members);
    (num_rows as u32, num_columns)
}

/// The two directions in which a sheet is measured.
#[derive(Debug, Clone, Copy, PartialEq, Eq, Structural)]
pub enum Dimension {
    Rows,
    Columns,
}

/// A run of rows or of columns on one sheet, from `start_index` up to but not
/// including `end_index`.
#[derive(Debug, Clone, Copy, PartialEq, Eq, Structural)]
pub struct DimensionRange {
    pub dimension: Dimension,
    pub sheet_id: i64,
    pub start_index: i64,
    pub end_index: i64,
}

/// A rectangle of cells on one sheet; each end index lies one past the last cell.
#[derive(Debug, Clone, Copy, PartialEq, Eq, Structural)]
pub struct GridRange {
    pub sheet_id: i64,
    pub start_row_index: i64,
    pub end_row_index: i64,
    pub start_column_index: i64,
    pub end_column_index: i64,
}

/// The property that a `Resize` request sets, as the spreadsheet service names
/// it.
pub const RESIZE_FIELDS: &'static str = "pixelSize";

/// The properties that a `Center` request sets, as the spreadsheet service
/// names them.
pub const CENTER_FIELDS: &'static str =
    "userEnteredFormat(horizontalAlignment, verticalAlignment, wrapStrategy)";

/// One step of shaping the directory.
#[derive(Debug, Clone, Copy, PartialEq, Eq, Structural)]
pub enum FormatRequest {
    /// Sets the rows or columns of `range` to `pixel_size` pixels.
    Resize { range: DimensionRange, pixel_size: i64 },
    /// Sets the cells of `area` to show their content in the centre from left
    /// to right, in the middle from top to bottom, and wrapped where it is too
    /// long for one line.
    Center { area: GridRange },
    /// Merges the cells of `area` column by column.
    MergeColumns { area: GridRange },
}

/// The request that makes column `column` `pixel_size` pixels wide.
pub open spec fn resize_column(column: int, pixel_size: int) -> FormatRequest {
    FormatRequest::Resize {
        range: DimensionRange {
            dimension: Dimension::Columns,
            sheet_id: 0,
            start_index: column as i64,
            end_index: (column + 1) as i64,
        },
        pixel_size: pixel_size as i64,
    }
}

/// The request that makes the first `rows` rows `pixel_size` pixels high.
pub open spec fn resize_rows(rows: int, pixel_size: int) -> FormatRequest {
    FormatRequest::Resize {
        range: DimensionRange {
            dimension: Dimension::Rows,
            sheet_id: 0,
            start_index: 0,
            end_index: rows as i64,
        },
        pixel_size: pixel_size as i64,
    }
}

/// The request that centres every cell of a grid of `rows` by `columns`.
pub open spec fn center_grid(rows: int, columns: int) -> FormatRequest {
    FormatRequest::Center {
        area: GridRange {
            sheet_id: 0,
            start_row_index: 0,
            end_row_index: rows as i64,
            start_column_index: 0,
            end_column_index: columns as i64,
        },
    }
}

/// The request that merges the first `rows` cells of column `column` into one.
pub open spec fn merge_column(column: int, rows: int) -> FormatRequest {
    FormatRequest::MergeColumns {
        area: GridRange {
            sheet_id: 0,
            start_row_index: 0,
            end_row_index: rows as i64,
            start_column_index: column as i64,
            end_column_index: (column + 1) as i64,
        },
    }
}

/// Columns between one person's first column and the next person's.
pub open spec fn column_stride() -> int {
    NUM_COLS_PER_PERSON + 1
}

/// How many of the columns `first`, `first + stride`, `first + 2 * stride`, ...
/// lie below `columns`.
pub open spec fn strided_count(first: int, columns: int) -> nat {
    if first < columns {
        ((columns - first + column_stride() - 1) / column_stride()) as nat
    } else {
        0
    }
}

/// One resize request for every strided column from `first` on.
pub open spec fn column_widths(first: int, columns: int, pixel_size: int) -> Seq<FormatRequest> {
    Seq::new(
        strided_count(first, columns),
        |k: int| resize_column(first + column_stride() * k, pixel_size),
    )
}

/// One merge request for every strided column from `first` on.
pub open spec fn column_merges(first: int, columns: int, rows: int) -> Seq<FormatRequest> {
    Seq::new(
        strided_count(first, columns),
        |k: int| merge_column(first + column_stride() * k, rows),
    )
}

/// The whole formatting of a grid of `rows` by `columns`, in the order in which
/// it is sent: name columns, row heights, photo columns, centring, then the
/// separator columns, first narrowed and then merged.
pub open spec fn format_plan(rows: int, columns: int) -> Seq<FormatRequest> {
    column_widths(1, columns, NAME_COLUMN_WIDTH as int) + seq![
        resize_rows(rows, PHOTO_SIZE as int),
    ] + column_widths(0, columns, PHOTO_SIZE as int) + seq![center_grid(rows, columns)]
        + column_widths(NUM_COLS_PER_PERSON as int, columns, SEPARATOR_WIDTH as int)
        + column_merges(NUM_COLS_PER_PERSON as int, columns, rows)
}

fn push_column_widths(
    requests: &mut Vec<FormatRequest>,
    first: u32,
    num_columns: u32,
    pixel_size: i64,
)
    ensures
        final(requests)@ == old(requests)@ + column_widths(
            first as int,
            num_columns as int,
            pixel_size as int,
        ),
{
    let ghost before = requests@;
    let stride: u64 = NUM_COLS_PER_PERSON as u64 + 1;
    let mut column: u64 = first as u64;
    let mut done: u64 = 0;
    while column < num_columns as u64
        invariant
            stride == column_stride(),
            column == first + stride * done,
            done <= strided_count(first as int, num_columns as int),
            column < num_columns ==> done < strided_count(first as int, num_columns as int),
            column >= num_columns ==> done == strided_count(first as int, num_columns as int),
            requests@.len() == before.len() + done,
            forall|k: int| 0 <= k < before.len() ==> requests@[k] == before[k],
            forall|k: int|
                before.len() <= k < requests@.len() ==> requests@[k] == resize_column(
                    first + column_stride() * (k - before.len()),
                    pixel_size as int,
                ),
        decreases num_columns + stride - column,
    {
        requests.push(
            FormatRequest::Resize {
                range: DimensionRange {
                    dimension: Dimension::Columns,
                    sheet_id: 0,
                    start_index: column as i64,
                    end_index: column as i64 + 1,
                },
                pixel_size,
            },
        );
        column = column + stride;
        done = done + 1;
    }
    assert(requests@ =~= before + column_widths(
        first as int,
        num_columns as int,
        pixel_size as int,
    ));
}

fn push_column_merges(requests: &mut Vec<FormatRequest>, first: u32, num_columns: u32, rows: u32)
    ensures
        final(requests)@ == old(requests)@ + column_merges(
            first as int,
            num_columns as int,
            rows as int,
        ),
{
    let ghost before = requests@;
    let stride: u64 = NUM_COLS_PER_PERSON as u64 + 1;
    let mut column: u64 = first as u64;
    let mut done: u64 = 0;
    while column < num_columns as u64
        invariant
            stride == column_stride(),
            column == first + stride * done,
            done <= strided_count(first as int, num_columns as int),
            column < num_columns ==> done < strided_count(first as int, num_columns as int),
            column >= num_columns ==> done == strided_count(first as int, num_columns as int),
            requests@.len() == before.len() + done,
            forall|k: int| 0 <= k < before.len() ==> requests@[k] == before[k],
            forall|k: int|
                before.len() <= k < requests@.len() ==> requests@[k] == merge_column(
                    first + column_stride() * (k - before.len()),
                    rows as int,
                ),
        decreases num_columns + stride - column,
    {
        requests.push(
            FormatRequest::MergeColumns {
                area: GridRange {
                    sheet_id: 0,
                    start_row_index: 0,
                    end_row_index: rows as i64,
                    start_column_index: column as i64,
                    end_column_index: column as i64 + 1,
                },
            },
        );
        column = column + stride;
        done = done + 1;
    }
    assert(requests@ =~= before + column_merges(first as int, num_columns as int, rows as int));
}

/// The requests that shape a grid of `num_rows` by `num_columns`, in sending
/// order.
pub fn format_requests(num_rows: u32, num_columns: u32) -> (requests: Vec<FormatRequest>)
    ensures
        requests@ == format_plan(num_rows as int, num_columns as int),
{
    let mut requests: Vec<FormatRequest> = Vec::new();
    push_column_widths(&mut requests, 1, num_columns, NAME_COLUMN_WIDTH);
    requests.push(
        FormatRequest::Resize {
            range: DimensionRange {
                dimension: Dimension::Rows,
                sheet_id: 0,
                start_index: 0,
                end_index: num_rows as i64,
            },
            pixel_size: PHOTO_SIZE,
        },
    );
    push_column_widths(&mut requests, 0, num_columns, PHOTO_SIZE);
    requests.push(
        FormatRequest::Center {
            area: GridRange {
                sheet_id: 0,
                start_row_index: 0,
                end_row_index: num_rows as i64,
                start_column_index: 0,
                end_column_index: num_columns as i64,
            },
        },
    );
    push_column_widths(&mut requests, NUM_COLS_PER_PERSON, num_columns, SEPARATOR_WIDTH);
    push_column_merges(&mut requests, NUM_COLS_PER_PERSON, num_columns, num_rows);
    assert(requests@ =~= format_plan(num_rows as int, num_columns as int));
    requests
}

/// The formula that shows the picture at `photo_url` in a cell.
pub open spec fn image_formula(photo_url: Seq<char>) -> Seq<char> {
    "=image(\""@ + photo_url + "\")"@
}

/// The place in the list of the person whose block holds the cell at `row` and
/// `column`. Pages follow each other downwards; on a page, people fill the
/// first block of columns from top to bottom, then the next.
pub open spec fn cell_member(row: int, column: int) -> int {
    (row / (NUM_ROWS_PER_PRINTED_SHEET as int)) * people_per_page() + (column / column_stride())
        * NUM_ROWS_PER_PRINTED_SHEET + row % (NUM_ROWS_PER_PRINTED_SHEET as int)
}

/// What the cell at `row` and `column` holds: in the first column of a block
/// the person's picture, in the second the person's name, and nothing in a
/// separator or where the list has run out.
pub open spec fn cell_text(members: Seq<VisualPerson>, row: int, column: int) -> Seq<char> {
    let member = cell_member(row, column);
    if 0 <= member < members.len() && column % column_stride() == 0 {
        image_formula(members[member].photo_url@)
    } else if 0 <= member < members.len() && column % column_stride() == 1 {
        members[member].name@
    } else {
        Seq::empty()
    }
}

/// The row in which person `member` of the list is shown.
pub open spec fn member_row(member: int) -> int {
    (member / (people_per_page() as int)) * NUM_ROWS_PER_PRINTED_SHEET + member % (
    NUM_ROWS_PER_PRINTED_SHEET as int)
}

/// The column that shows the picture of person `member` of the list; the name
/// stands in the next.
pub open spec fn member_column(member: int) -> int {
    ((member % (people_per_page() as int)) / (NUM_ROWS_PER_PRINTED_SHEET as int)) * column_stride()
}

/// Everyone on the list is shown: the cells for person `member` lie in the
/// grid, and hold that person's picture and name.
pub proof fn lemma_member_is_shown(members: Seq<VisualPerson>, member: int)
    requires
        0 <= member < members.len(),
    ensures
        0 <= member_row(member) < grid_rows(members.len()),
        0 <= member_column(member),
        member_column(member) + 1 < grid_columns(),
        cell_text(members, member_row(member), member_column(member)) == image_formula(
            members[member].photo_url@,
        ),
        cell_text(members, member_row(member), member_column(member) + 1)
            == members[member].name@,
{
    let page = member / 33;
    let within = member % 33;
    let block = within / 11;
    let line = member % 11;
    assert(within % 11 == line);
    assert(member_row(member) == page * 11 + line);
    assert(member_column(member) == block * 3);
    assert((page * 11 + line) / 11 == page);
    assert((page * 11 + line) % 11 == line);
    assert((block * 3) / 3 == block);
    assert((block * 3 + 1) / 3 == block);
    assert(page * 33 + block * 11 + line == member);
}

/// No one is shown twice: a cell whose block belongs to person `member` lies
/// in that person's row, and in the block that starts at that person's column.
pub proof fn lemma_member_is_shown_once(row: int, column: int)
    requires
        0 <= row,
        0 <= column < grid_columns(),
    ensures
        row == member_row(cell_member(row, column)),
        column - column % column_stride() == member_column(cell_member(row, column)),
{
    let page = row / 11;
    let line = row % 11;
    let block = column / 3;
    let member = page * 33 + block * 11 + line;
    assert(cell_member(row, column) == member);
    assert(0 <= block < 3);
    assert(member / 33 == page);
    assert(member % 33 == block * 11 + line);
    assert((block * 11 + line) / 11 == block);
    assert(member % 11 == line);
}

/// The text of every cell of the directory for `members`, row by row.
pub fn directory_cells(members: &Vec<VisualPerson>) -> (cells: Vec<Vec<String>>)
    ensures
        cells@.len() == grid_rows(members@.len()),
        forall|row: int| 0 <= row < cells@.len() ==> (#[trigger] cells@[row])@.len() == grid_columns(),
        forall|row: int, column: int|
            0 <= row < cells@.len() && 0 <= column < grid_columns() ==> (
            #[trigger] cells@[row]@[column])@ == cell_text(members@, row, column),
{
    let num_rows: usize = rows_for(members.len());
    let num_columns: usize = (NUM_COLS_PER_PRINTED_SHEET * NUM_COLS_PER_PERSON + (
    NUM_COLS_PER_PRINTED_SHEET - 1)) as usize;
    let page_rows: u128 = NUM_ROWS_PER_PRINTED_SHEET as u128;
    let per_page: u128 = (NUM_COLS_PER_PRINTED_SHEET * NUM_ROWS_PER_PRINTED_SHEET) as u128;
    let stride: usize = NUM_COLS_PER_PERSON as usize + 1;
    let mut cells: Vec<Vec<String>> = Vec::new();
    let mut row: usize = 0;
    while row < num_rows
        invariant
            row <= num_rows,
            num_rows == grid_rows(members@.len()),
            num_columns == grid_columns(),
            page_rows == NUM_ROWS_PER_PRINTED_SHEET,
            per_page == people_per_page(),
            stride == column_stride(),
            cells@.len() == row,
            forall|r: int| 0 <= r < row ==> (#[trigger] cells@[r])@.len() == grid_columns(),
            forall|r: int, c: int|
                0 <= r < row && 0 <= c < grid_columns() ==> (#[trigger] cells@[r]@[c])@
                    == cell_text(members@, r, c),
        decreases num_rows - row,
    {
        let mut line: Vec<String> = Vec::new();
        let mut column: usize = 0;
        while column < num_columns
            invariant
                column <= num_columns,
                row < num_rows,
                num_columns == grid_columns(),
                page_rows == NUM_ROWS_PER_PRINTED_SHEET,
                per_page == people_per_page(),
                stride == column_stride(),
                line@.len() == column,
                forall|c: int|
                    0 <= c < column ==> (#[trigger] line@[c])@ == cell_text(
                        members@,
                        row as int,
                        c,
                    ),
            decreases num_columns - column,
        {
            let member: u128 = (row as u128 / page_rows) * per_page + ((column / stride) as u128)
                * page_rows + row as u128 % page_rows;
            assert(member == cell_member(row as int, column as int));
            let slot: usize = column % stride;
            let text = if member < members.len() as u128 && slot == 0 {
                let mut formula = String::from_str("=image(\"");
                formula.append(members[member as usize].photo_url.as_str());
                formula.append("\")");
                formula
            } else if member < members.len() as u128 && slot == 1 {
                members[member as usize].name.clone()
            } else {
                String::new()
            };
            line.push(text);
            column = column + 1;
        }
        cells.push(line);
        row = row + 1;
    }
    cells
}

/// The letters that name the first columns of a sheet.
pub const COLUMN_LETTERS: &'static str = "ABCDEFGHIJKLMNOPQRSTUVWXYZ";

/// The range that covers a grid of `rows` by `columns`, for up to as many
/// columns as a single letter names: from `A1` to the bottom of the last
/// column.
pub open spec fn range_text(rows: nat, columns: nat) -> Seq<char> {
    "A1:"@ + COLUMN_LETTERS@.subrange(columns - 1, columns as int) + decimal_text(rows)
}

/// The range that covers a grid of `num_rows` by `num_columns`.
pub fn grid_range(num_rows: u32, num_columns: u32) -> (range: String)
    requires
        1 <= num_columns <= 26,
    ensures
        range@ == range_text(num_rows as nat, num_columns as nat),
{
    proof {
        reveal_strlit("ABCDEFGHIJKLMNOPQRSTUVWXYZ");
    }
    let letter = COLUMN_LETTERS.substring_char(num_columns as usize - 1, num_columns as usize);
    let mut range = String::from_str("A1:");
    range.append(letter);
    range.append(decimal(num_rows as u64).as_str());
    range
}

/// What the browser is told once the redirect has been received.
pub const REDIRECT_MESSAGE: &'static str = "Go back to your terminal :)";

/// The host that stands before the target of a redirect to make it an address.
pub const REDIRECT_BASE: &'static str = "http://localhost";

/// The pairs of name and value in the query of the address `url`, as
/// `url::Url::parse` and `Url::query_pairs` read them, or `None` where `url`
/// does not parse as an address.
pub uninterp spec fn url_query_pairs(url: Seq<char>) -> Option<Seq<(Seq<char>, Seq<char>)>>;

/// What a list of pairs that was found holds.
pub open spec fn found_pairs(pairs: Option<Vec<(String, String)>>) -> Option<
    Seq<(Seq<char>, Seq<char>)>,
> {
    match pairs {
        Some(list) => Some(pairs_view(list@)),
        None => None,
    }
}

/// Parses `url` with `url::Url::parse` and reads the pairs of its query off
/// the parsed address with `Url::query_pairs`, each decoded. Taken on trust
/// from `url`: the result depends on `url` alone. How an address is parsed and
/// a query decoded is not stated here.
#[verifier::external_body]
fn query_pairs(url: &str) -> (pairs: Option<Vec<(String, String)>>)
    ensures
        found_pairs(pairs) == url_query_pairs(url@),
{
    match url::Url::parse(url) {
        Ok(parsed) => Some(parsed.query_pairs().into_owned().collect()),
        Err(_) => None,
    }
}

/// The value of the first of `pairs` that is named `key`.
pub open spec fn first_value(pairs: Seq<(Seq<char>, Seq<char>)>, key: Seq<char>) -> Option<
    Seq<char>,
>
    decreases pairs.len(),
{
    if pairs.len() == 0 {
        None
    } else if pairs[0].0 == key {
        Some(pairs[0].1)
    } else {
        first_value(pairs.drop_first(), key)
    }
}

/// The code and the state that a query hands over: the first value named
/// `code` and the first named `state`, where it has both.
pub open spec fn redirect_params_of(pairs: Seq<(Seq<char>, Seq<char>)>) -> Option<
    (Seq<char>, Seq<char>),
> {
    match (first_value(pairs, "code"@), first_value(pairs, "state"@)) {
        (Some(code), Some(state)) => Some((code, state)),
        _ => None,
    }
}

/// The code and the state that a request with the first line `request_line`
/// hands over: those of the query of its target, which is the second word of
/// the line.
pub open spec fn redirect_of(request_line: Seq<char>) -> Option<(Seq<char>, Seq<char>)> {
    match nth_word(request_line, 1) {
        Some(target) => match url_query_pairs(REDIRECT_BASE@ + target) {
            Some(pairs) => redirect_params_of(pairs),
            None => None,
        },
        None => None,
    }
}

/// What a code and a state that were found hold.
pub open spec fn found_params(params: Option<(String, String)>) -> Option<(Seq<char>, Seq<char>)> {
    match params {
        Some((code, state)) => Some((code@, state@)),
        None => None,
    }
}

fn find_value(pairs: &Vec<(String, String)>, key: &str) -> (value: Option<String>)
    ensures
        match value {
            Some(found) => first_value(pairs_view(pairs@), key@) == Some(found@),
            None => first_value(pairs_view(pairs@), key@) is None,
        },
{
    let mut i: usize = 0;
    assert(pairs_view(pairs@).skip(0) =~= pairs_view(pairs@));
    while i < pairs.len()
        invariant
            i <= pairs.len(),
            first_value(pairs_view(pairs@), key@) == first_value(
                pairs_view(pairs@).skip(i as int),
                key@,
            ),
        decreases pairs.len() - i,
    {
        let ghost rest = pairs_view(pairs@).skip(i as int);
        proof {
            assert(rest[0] == pairs_view(pairs@)[i as int]);
            assert(rest.drop_first() =~= pairs_view(pairs@).skip(i + 1));
        }
        if same_text(pairs[i].0.as_str(), key) {
            return Some(pairs[i].1.clone());
        }
        i = i + 1;
    }
    assert(pairs_view(pairs@).skip(pairs.len() as int).len() == 0);
    None
}

/// The code and the state among the pairs of a query, where it has both.
pub fn redirect_params(pairs: &Vec<(String, String)>) -> (params: Option<(String, String)>)
    ensures
        found_params(params) == redirect_params_of(pairs_view(pairs@)),
{
    let code = find_value(pairs, "code");
    let state = find_value(pairs, "state");
    match (code, state) {
        (Some(code), Some(state)) => Some((code, state)),
        _ => None,
    }
}

/// The code and the state that the redirect hands over, read from the first
/// line of its request. There are none where the line has no second word,
/// where that word does not make an address, or where the query lacks either.
pub fn parse_redirect(request_line: &str) -> (params: Option<(String, String)>)
    ensures
        found_params(params) == redirect_of(request_line@),
{
    match second_word(request_line) {
        Some(target) => {
            let mut url = String::from_str(REDIRECT_BASE);
            url.append(target.as_str());
            match query_pairs(url.as_str()) {
                Some(pairs) => redirect_params(&pairs),
                None => None,
            }
        },
        None => None,
    }
}

/// The answer to the redirect's request: a success, with `message` as its body
/// and `length`, the length of `message` in bytes, announced before it.
pub open spec fn response_text(message: Seq<char>, length: nat) -> Seq<char> {
    "HTTP/1.1 200 OK\r\ncontent-length: "@ + decimal_text(length) + "\r\n\r\n"@ + message
}

/// The answer that tells the browser `message`.
pub fn redirect_response(message: &str) -> (response: String)
    ensures
        response@ == response_text(message@, message.len() as nat),
{
    let mut response = String::from_str("HTTP/1.1 200 OK\r\ncontent-length: ");
    response.append(decimal(message.len() as u64).as_str());
    response.append("\r\n\r\n");
    response.append(message);
    response
}

} // verus!
