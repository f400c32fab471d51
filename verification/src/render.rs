//! Renders year grids as text and as a web page.

use crate::calendar::{GRID_CELLS, WEEKS};
use crate::model::{GridCell, Year, YearGrid};
use crate::text::{decimal, push_decimal, push_signed_decimal, signed_decimal};
use vstd::prelude::*;
use vstd::string::*;

verus! {

/// The largest number of events in any of `cells`.
pub open spec fn most_events(cells: Seq<GridCell>) -> nat
    decreases cells.len(),
{
    if cells.len() == 0 {
        0
    } else {
        let before = most_events(cells.drop_last());
        if cells.last().events.len() > before {
            cells.last().events.len()
        } else {
            before
        }
    }
}

/// The number of events against which the cells of `grid` are shaded: the
/// largest number in any cell, and 1 if every cell is empty.
pub open spec fn max_count(grid: YearGrid) -> nat {
    if most_events(grid.cells) < 1 {
        1
    } else {
        most_events(grid.cells)
    }
}

/// No cell holds more events than `most_events` says, and some cell holds as
/// many unless there is none.
pub proof fn lemma_most_events(cells: Seq<GridCell>)
    ensures
        forall|c: int| 0 <= c < cells.len() ==> (#[trigger] cells[c]).events.len() <= most_events(cells),
        cells.len() > 0 ==> exists|c: int|
            0 <= c < cells.len() && (#[trigger] cells[c]).events.len() == most_events(cells),
        cells.len() == 0 ==> most_events(cells) == 0,
    decreases cells.len(),
{
    if cells.len() > 0 {
        let front = cells.drop_last();
        lemma_most_events(front);
        assert forall|c: int| 0 <= c < cells.len() implies (#[trigger] cells[c]).events.len()
            <= most_events(cells) by {
            if c < front.len() {
                assert(front[c] == cells[c]);
            }
        }
        if cells.last().events.len() > most_events(front) || front.len() == 0 {
            assert(cells[cells.len() - 1].events.len() == most_events(cells));
        } else {
            let c = choose|c: int|
                0 <= c < front.len() && (#[trigger] front[c]).events.len() == most_events(front);
            assert(cells[c] == front[c]);
        }
    }
}

/// The number of events against which the cells of `year` are shaded.
pub fn get_max_count(year: &Year) -> (r: usize)
    ensures
        r == max_count(year@),
        r >= 1,
{
    let days = year.days();
    let mut most: usize = 0;
    let mut c: usize = 0;
    while c < GRID_CELLS
        invariant
            c <= GRID_CELLS,
            days.len() == GRID_CELLS,
            year@.cells.len() == GRID_CELLS,
            forall|k: int| 0 <= k < GRID_CELLS ==> (#[trigger] days[k])@ == year@.cells[k],
            most == most_events(year@.cells.take(c as int)),
        decreases GRID_CELLS - c,
    {
        let count = days[c].commit_count();
        assert(year@.cells.take(c + 1).drop_last() =~= year@.cells.take(c as int));
        if count > most {
            most = count;
        }
        c = c + 1;
    }
    assert(year@.cells.take(GRID_CELLS as int) =~= year@.cells);
    if most < 1 {
        1
    } else {
        most
    }
}

/// The shade of a cell with `commits` events when the fullest cell has
/// `max_count`: 0 for none, 1 for less than a quarter, 2 for less than half,
/// 3 for less than three quarters, and 4 from there on.
pub open spec fn shade_class(commits: nat, max_count: nat) -> nat {
    if commits == 0 {
        0
    } else if 4 * commits < max_count {
        1
    } else if 2 * commits < max_count {
        2
    } else if 4 * commits < 3 * max_count {
        3
    } else {
        4
    }
}

/// The shade of a cell with `commits` events when the fullest cell has
/// `max_count`.
pub fn get_shade_class(commits: usize, max_count: usize) -> (r: usize)
    ensures
        r == shade_class(commits as nat, max_count as nat),
        r <= 4,
{
    let commits: u128 = commits as u128;
    let max_count: u128 = max_count as u128;
    if commits == 0 {
        0
    } else if 4 * commits < max_count {
        1
    } else if 2 * commits < max_count {
        2
    } else if 4 * commits < 3 * max_count {
        3
    } else {
        4
    }
}

/// The character that stands for a cell with `commits` events when the
/// fullest cell has `max_count`: dark for more than half, medium for any,
/// light for none.
pub open spec fn shaded_char(commits: nat, max_count: nat) -> char {
    if 2 * commits > max_count {
        '\u{2593}'
    } else if commits > 0 {
        '\u{2592}'
    } else {
        '\u{2591}'
    }
}

/// The character that stands for cell `cell` when the fullest cell has
/// `max_count` events: a blank for a filler cell, else its shade.
pub open spec fn ascii_cell(cell: GridCell, max_count: nat) -> char {
    if cell.filler {
        ' '
    } else {
        shaded_char(cell.events.len(), max_count)
    }
}

/// The first `upto` characters of the row of weekday `weekday`.
pub open spec fn ascii_cells(grid: YearGrid, weekday: int, upto: int) -> Seq<char> {
    Seq::new(
        upto as nat,
        |week: int| ascii_cell(grid.cells[weekday * WEEKS as int + week], max_count(grid)),
    )
}

/// The rows of the first `upto` weekdays, each closed by a line break.
pub open spec fn ascii_rows(grid: YearGrid, upto: int) -> Seq<char>
    decreases upto,
{
    if upto <= 0 {
        Seq::empty()
    } else {
        ascii_rows(grid, upto - 1) + ascii_cells(grid, upto - 1, WEEKS as int) + seq!['\n']
    }
}

/// The picture of one year: a line break, then one row for each weekday.
pub open spec fn ascii_year(grid: YearGrid) -> Seq<char> {
    seq!['\n'] + ascii_rows(grid, 7)
}

/// The picture of the years, the latest first.
pub open spec fn ascii_text(grids: Seq<YearGrid>) -> Seq<char>
    decreases grids.len(),
{
    if grids.len() == 0 {
        Seq::empty()
    } else {
        ascii_year(grids.last()) + ascii_text(grids.drop_last())
    }
}

/// The text of the character that stands for a cell.
pub fn get_shaded_char(commits: usize, max_count: usize) -> (r: &'static str)
    ensures
        r@ == seq![shaded_char(commits as nat, max_count as nat)],
{
    proof {
        reveal_strlit("\u{2593}");
        reveal_strlit("\u{2592}");
        reveal_strlit("\u{2591}");
    }
    let r = if 2 * (commits as u128) > max_count as u128 {
        "\u{2593}"
    } else if commits > 0 {
        "\u{2592}"
    } else {
        "\u{2591}"
    };
    assert(r@ =~= seq![shaded_char(commits as nat, max_count as nat)]);
    r
}

/// Appends the picture of `year` to `out`.
fn push_ascii_year(out: &mut String, year: &Year)
    ensures
        final(out)@ == old(out)@ + ascii_year(year@),
{
    let fullest = get_max_count(year);
    let days = year.days();
    proof {
        reveal_strlit("\n");
        reveal_strlit(" ");
    }
    out.append("\n");
    let mut weekday: usize = 0;
    while weekday < 7
        invariant
            weekday <= 7,
            days.len() == GRID_CELLS,
            year@.cells.len() == GRID_CELLS,
            forall|k: int| 0 <= k < GRID_CELLS ==> (#[trigger] days[k])@ == year@.cells[k],
            fullest == max_count(year@),
            "\n"@ == seq!['\n'],
            " "@ == seq![' '],
            out@ == old(out)@ + seq!['\n'] + ascii_rows(year@, weekday as int),
        decreases 7 - weekday,
    {
        let ghost row_start = out@;
        let mut week: usize = 0;
        while week < WEEKS
            invariant
                week <= WEEKS,
                weekday < 7,
                days.len() == GRID_CELLS,
                year@.cells.len() == GRID_CELLS,
                forall|k: int| 0 <= k < GRID_CELLS ==> (#[trigger] days[k])@ == year@.cells[k],
                fullest == max_count(year@),
                " "@ == seq![' '],
                out@ == row_start + ascii_cells(year@, weekday as int, week as int),
            decreases WEEKS - week,
        {
            let day = &days[weekday * WEEKS + week];
            if day.is_filler() {
                out.append(" ");
            } else {
                out.append(get_shaded_char(day.commit_count(), fullest));
            }
            week = week + 1;
            assert(out@ =~= row_start + ascii_cells(year@, weekday as int, week as int));
        }
        out.append("\n");
        weekday = weekday + 1;
        assert(out@ =~= old(out)@ + seq!['\n'] + ascii_rows(year@, weekday as int));
    }
    assert(out@ =~= old(out)@ + ascii_year(year@));
}

/// Draws the years as text, the latest first: for each year an empty line
/// and seven rows of 53 characters, one row for each weekday from Monday on.
pub fn ascii(years: &[Year]) -> (r: String)
    ensures
        r@ == ascii_text(years@.map_values(|y: Year| y@)),
{
    let ghost grids = years@.map_values(|y: Year| y@);
    let mut r = String::new();
    let mut left: usize = years.len();
    proof {
        assert(grids.take(left as int) =~= grids);
        assert(r@ + ascii_text(grids) =~= ascii_text(grids));
    }
    while left > 0
        invariant
            left <= years.len(),
            grids == years@.map_values(|y: Year| y@),
            r@ + ascii_text(grids.take(left as int)) == ascii_text(grids),
        decreases left,
    {
        left = left - 1;
        let ghost before = r@;
        push_ascii_year(&mut r, &years[left]);
        proof {
            let shown = grids.take(left + 1);
            assert(shown.drop_last() =~= grids.take(left as int));
            assert(shown.last() == years[left as int]@);
            assert(r@ + ascii_text(grids.take(left as int)) =~= before + ascii_text(shown));
        }
    }
    proof {
        assert(r@ =~= r@ + ascii_text(grids.take(0)));
    }
    r
}

/// The texts that a page is made of, besides its tables.
#[derive(Debug)]
pub struct PageParts {
    /// What the `<head>` element of every page holds.
    pub head: String,
    /// The stylesheet of every page.
    pub css: String,
    /// Pasted into the `<head>` element.
    pub external_head: String,
    /// Pasted at the beginning of the `<body>` element.
    pub external_header: String,
    /// Pasted at the end of the `<body>` element.
    pub external_footer: String,
    /// Pasted at the end of the stylesheet.
    pub external_css: String,
}

/// The stylesheet: the one of every page, a line break, and what is pasted
/// at its end.
pub open spec fn css_text(parts: PageParts) -> Seq<char> {
    parts.css@ + "\n"@ + parts.external_css@
}

/// The stylesheet that belongs to the page.
pub fn css(parts: &PageParts) -> (r: String)
    ensures
        r@ == css_text(*parts),
{
    let mut r = parts.css.clone();
    r.append("\n");
    r.append(parts.external_css.as_str());
    r
}

/// The element that brings the stylesheet into the page: a link to `link`
/// where there is one, else the stylesheet itself.
pub open spec fn style_element(parts: PageParts, link: Option<Seq<char>>) -> Seq<char> {
    match link {
        Some(href) => "<link href=\""@ + href + "\" rel=\"stylesheet\">"@,
        None => "<style>\n"@ + parts.css@ + "\n"@ + parts.external_css@ + "</style>"@,
    }
}

/// What stands before the tables of a page.
pub open spec fn page_head(parts: PageParts, link: Option<Seq<char>>) -> Seq<char> {
    "<!DOCTYPE html>\n<html>\n<head>\n"@ + parts.head@ + "\n"@ + style_element(parts, link) + "\n"@
        + parts.external_head@ + "\n</head>\n<body>\n"@ + parts.external_header@ + "\n"@
}

/// What stands after the tables of a page.
pub open spec fn page_tail(parts: PageParts) -> Seq<char> {
    parts.external_footer@ + "</body></html>"@
}

/// What is shown when the pointer rests on a cell with `commits` events.
pub open spec fn tooltip(commits: nat) -> Seq<char> {
    if commits == 0 {
        "No commits"@
    } else {
        decimal(commits) + " commits"@
    }
}

/// The table cell for cell `cell` when the fullest cell has `max_count`
/// events.
pub open spec fn html_cell(cell: GridCell, max_count: nat) -> Seq<char> {
    "<td class=\"blob lvl"@ + decimal(shade_class(cell.events.len(), max_count)) + " "@ + (
    if cell.filler {
        "filler-day"@
    } else {
        ""@
    }) + "\" title=\""@ + tooltip(cell.events.len()) + "\"></td>"@
}

/// The first `upto` table cells of the row of weekday `weekday`.
pub open spec fn html_cells(grid: YearGrid, weekday: int, upto: int) -> Seq<char>
    decreases upto,
{
    if upto <= 0 {
        Seq::empty()
    } else {
        html_cells(grid, weekday, upto - 1) + html_cell(
            grid.cells[weekday * WEEKS as int + upto - 1],
            max_count(grid),
        )
    }
}

/// The table rows of the first `upto` weekdays.
pub open spec fn html_rows(grid: YearGrid, upto: int) -> Seq<char>
    decreases upto,
{
    if upto <= 0 {
        Seq::empty()
    } else {
        html_rows(grid, upto - 1) + "<tr>"@ + html_cells(grid, upto - 1, WEEKS as int) + "</tr>\n"@
    }
}

/// The table of one year.
pub open spec fn html_year(grid: YearGrid) -> Seq<char> {
    "<table class=\"activity-table\"><thead><tr><td class=\"activity-header-year\" colspan=\""@
        + decimal(WEEKS as nat) + "\"><h3>"@ + signed_decimal(grid.year)
        + "</h3></td></tr></thead><tbody>\n"@ + html_rows(grid, 7) + "</tbody></table>\n"@
}

/// The tables of the years, the latest first.
pub open spec fn html_years(grids: Seq<YearGrid>) -> Seq<char>
    decreases grids.len(),
{
    if grids.len() == 0 {
        Seq::empty()
    } else {
        html_year(grids.last()) + html_years(grids.drop_last())
    }
}

/// The page that shows `grids`.
pub open spec fn html_text(parts: PageParts, link: Option<Seq<char>>, grids: Seq<YearGrid>) -> Seq<
    char,
> {
    page_head(parts, link) + html_years(grids) + page_tail(parts)
}

/// Appends the element that brings the stylesheet into the page.
fn push_style_element(out: &mut String, parts: &PageParts, link: Option<&str>)
    ensures
        final(out)@ == old(out)@ + style_element(
            *parts,
            match link {
                Some(href) => Some(href@),
                None => None,
            },
        ),
{
    match link {
        Some(href) => {
            out.append("<link href=\"");
            out.append(href);
            out.append("\" rel=\"stylesheet\">");
            assert(final(out)@ =~= old(out)@ + style_element(*parts, Some(href@)));
        },
        None => {
            out.append("<style>\n");
            out.append(parts.css.as_str());
            out.append("\n");
            out.append(parts.external_css.as_str());
            out.append("</style>");
            assert(final(out)@ =~= old(out)@ + style_element(*parts, None));
        },
    }
}

/// Appends the table cell for `day`.
fn push_html_cell(out: &mut String, day: &crate::model::Day, fullest: usize)
    ensures
        final(out)@ == old(out)@ + html_cell(day@, fullest as nat),
{
    let commits = day.commit_count();
    out.append("<td class=\"blob lvl");
    push_decimal(out, get_shade_class(commits, fullest));
    out.append(" ");
    if day.is_filler() {
        out.append("filler-day");
    } else {
        out.append("");
    }
    out.append("\" title=\"");
    if commits == 0 {
        out.append("No commits");
    } else {
        push_decimal(out, commits);
        out.append(" commits");
    }
    out.append("\"></td>");
    assert(final(out)@ =~= old(out)@ + html_cell(day@, fullest as nat));
}

/// Appends the table of `year`.
fn push_html_year(out: &mut String, year: &Year)
    ensures
        final(out)@ == old(out)@ + html_year(year@),
{
    let fullest = get_max_count(year);
    let days = year.days();
    out.append(
        "<table class=\"activity-table\"><thead><tr><td class=\"activity-header-year\" colspan=\"",
    );
    push_decimal(out, WEEKS);
    out.append("\"><h3>");
    push_signed_decimal(out, year.year());
    out.append("</h3></td></tr></thead><tbody>\n");
    let ghost opened = out@;
    let mut weekday: usize = 0;
    while weekday < 7
        invariant
            weekday <= 7,
            days.len() == GRID_CELLS,
            year@.cells.len() == GRID_CELLS,
            forall|k: int| 0 <= k < GRID_CELLS ==> (#[trigger] days[k])@ == year@.cells[k],
            fullest == max_count(year@),
            out@ == opened + html_rows(year@, weekday as int),
        decreases 7 - weekday,
    {
        out.append("<tr>");
        let ghost row_start = out@;
        let mut week: usize = 0;
        while week < WEEKS
            invariant
                week <= WEEKS,
                weekday < 7,
                days.len() == GRID_CELLS,
                year@.cells.len() == GRID_CELLS,
                forall|k: int| 0 <= k < GRID_CELLS ==> (#[trigger] days[k])@ == year@.cells[k],
                fullest == max_count(year@),
                out@ == row_start + html_cells(year@, weekday as int, week as int),
            decreases WEEKS - week,
        {
            push_html_cell(out, &days[weekday * WEEKS + week], fullest);
            week = week + 1;
            assert(out@ =~= row_start + html_cells(year@, weekday as int, week as int));
        }
        out.append("</tr>\n");
        weekday = weekday + 1;
        assert(out@ =~= opened + html_rows(year@, weekday as int));
    }
    out.append("</tbody></table>\n");
    assert(final(out)@ =~= old(out)@ + html_year(year@));
}

/// Renders the page that shows `years`, the latest first, one table of
/// seven rows and 53 columns for each.
///
/// The stylesheet is linked from `link` where there is one, and stands in
/// the page itself where there is none.
pub fn html(parts: &PageParts, link: Option<&str>, years: &[Year]) -> (r: String)
    ensures
        r@ == html_text(
            *parts,
            match link {
                Some(href) => Some(href@),
                None => None,
            },
            years@.map_values(|y: Year| y@),
        ),
{
    let ghost grids = years@.map_values(|y: Year| y@);
    let ghost href = match link {
        Some(href) => Some(href@),
        None => None,
    };
    let mut r = String::new();
    r.append("<!DOCTYPE html>\n<html>\n<head>\n");
    r.append(parts.head.as_str());
    r.append("\n");
    push_style_element(&mut r, parts, link);
    r.append("\n");
    r.append(parts.external_head.as_str());
    r.append("\n</head>\n<body>\n");
    r.append(parts.external_header.as_str());
    r.append("\n");
    assert(r@ =~= page_head(*parts, href));
    let mut left: usize = years.len();
    proof {
        assert(grids.take(left as int) =~= grids);
    }
    while left > 0
        invariant
            left <= years.len(),
            grids == years@.map_values(|y: Year| y@),
            r@ + html_years(grids.take(left as int)) == page_head(*parts, href) + html_years(grids),
        decreases left,
    {
        left = left - 1;
        let ghost before = r@;
        push_html_year(&mut r, &years[left]);
        proof {
            let shown = grids.take(left + 1);
            assert(shown.drop_last() =~= grids.take(left as int));
            assert(shown.last() == years[left as int]@);
            assert(r@ + html_years(grids.take(left as int)) =~= before + html_years(shown));
        }
    }
    proof {
        assert(r@ =~= r@ + html_years(grids.take(0)));
    }
    r.append(parts.external_footer.as_str());
    r.append("</body></html>");
    assert(r@ =~= html_text(*parts, href, grids));
    r
}

/// One component of a relative path.
#[derive(Debug)]
pub enum PathPart {
    /// A directory or file of the given name.
    Normal(String),
    /// The directory itself, `.`.
    CurDir,
    /// The directory above, `..`.
    ParentDir,
    /// A root or a prefix, which a web path does not show.
    Other,
}

/// What a component shows as in a web path, if it shows at all.
pub open spec fn part_text(part: PathPart) -> Option<Seq<char>> {
    match part {
        PathPart::Normal(name) => Some(name@),
        PathPart::CurDir => Some("."@),
        PathPart::ParentDir => Some(".."@),
        PathPart::Other => None,
    }
}

/// The web path of the components: those that show, joined by `/`. A
/// separator is set only after text, so components that show as nothing at
/// the start leave no separator behind.
pub open spec fn web_path(parts: Seq<PathPart>) -> Seq<char>
    decreases parts.len(),
{
    if parts.len() == 0 {
        Seq::empty()
    } else {
        let before = web_path(parts.drop_last());
        match part_text(parts.last()) {
            None => before,
            Some(text) => if before.len() > 0 {
                before + "/"@ + text
            } else {
                text
            },
        }
    }
}

/// Joins the components of a relative path to a web path.
pub fn create_web_path(parts: &Vec<PathPart>) -> (r: String)
    ensures
        r@ == web_path(parts@),
{
    let mut r = String::new();
    let mut i: usize = 0;
    assert(parts@.take(0) =~= Seq::<PathPart>::empty());
    while i < parts.len()
        invariant
            i <= parts.len(),
            r@ == web_path(parts@.take(i as int)),
        decreases parts.len() - i,
    {
        proof {
            assert(parts@.take(i + 1).drop_last() =~= parts@.take(i as int));
            assert(parts@.take(i + 1).last() == parts@[i as int]);
        }
        let ghost before = r@;
        match &parts[i] {
            PathPart::Normal(name) => {
                if !r.as_str().is_empty() {
                    r.append("/");
                }
                r.append(name.as_str());
                assert(r@ =~= web_path(parts@.take(i + 1)));
            },
            PathPart::CurDir => {
                if !r.as_str().is_empty() {
                    r.append("/");
                }
                r.append(".");
                assert(r@ =~= web_path(parts@.take(i + 1)));
            },
            PathPart::ParentDir => {
                if !r.as_str().is_empty() {
                    r.append("/");
                }
                r.append("..");
                assert(r@ =~= web_path(parts@.take(i + 1)));
            },
            PathPart::Other => {},
        }
        i = i + 1;
    }
    assert(parts@.take(parts.len() as int) =~= parts@);
    r
}

/// Calls `std::path::Path::parent` on `path`.
///
/// Trusted: the empty path has no directory. Nothing else is claimed of the
/// result; what counts as the directory of a path depends on the platform.
#[verifier::external_body]
fn parent_dir(path: &str) -> (r: Option<String>)
    ensures
        path@.len() == 0 ==> r.is_none(),
{
    match std::path::Path::new(path).parent() {
        Some(dir) => Some(dir.to_string_lossy().into_owned()),
        None => None,
    }
}

/// Calls `pathdiff::diff_paths(path, base)` and lists the components of the
/// relative path that came back.
///
/// Trusted: nothing is claimed of the result; how a path falls into
/// components depends on the platform.
#[verifier::external_body]
fn relative_parts(path: &str, base: &str) -> Option<Vec<PathPart>> {
    let relative = pathdiff::diff_paths(path, base)?;
    let mut parts = Vec::new();
    for component in relative.components() {
        parts.push(match component {
            std::path::Component::Normal(name) => PathPart::Normal(name.to_string_lossy().into_owned()),
            std::path::Component::CurDir => PathPart::CurDir,
            std::path::Component::ParentDir => PathPart::ParentDir,
            _ => PathPart::Other,
        });
    }
    Some(parts)
}

/// The link that a page written to `html_path` uses for a stylesheet written
/// to `css_path`: the web path from the directory of the page to the
/// stylesheet.
///
/// There is no link without a stylesheet file, for a page without a
/// directory, or where no relative path leads from the one to the other.
/// Whether the page has a directory and which relative path leads to the
/// stylesheet is for the platform to say; the link is the web path of the
/// components of that relative path, as `link_from` makes it.
pub fn stylesheet_link(html_path: &str, css_path: Option<&str>) -> (r: Option<String>)
    ensures
        css_path.is_none() ==> r.is_none(),
        html_path@.len() == 0 ==> r.is_none(),
        r matches Some(link) ==> exists|parts: Seq<PathPart>| #[trigger] web_path(parts) == link@,
{
    match css_path {
        Some(css_path) => match parent_dir(html_path) {
            Some(base) => link_from(relative_parts(css_path, base.as_str())),
            None => None,
        },
        None => None,
    }
}

/// The link for the relative path that leads to a stylesheet, if one does.
pub open spec fn link_of(relative: Option<Vec<PathPart>>) -> Option<Seq<char>> {
    match relative {
        Some(parts) => Some(web_path(parts@)),
        None => None,
    }
}

/// The link for the relative path that leads from the directory of a page
/// to its stylesheet: the web path of its components. Where no relative
/// path leads there, there is no link.
pub fn link_from(relative: Option<Vec<PathPart>>) -> (r: Option<String>)
    ensures
        r.is_some() == relative.is_some(),
        r matches Some(link) ==> link_of(relative) == Some(link@),
{
    match relative {
        Some(parts) => Some(create_web_path(&parts)),
        None => None,
    }
}

} // verus!
