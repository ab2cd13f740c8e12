//! Listings for people to read.

use vstd::prelude::*;
use vstd::string::StringExecFns;
use crate::cli::Environment;
use crate::handler::fetch;
use crate::handler::fetch::{cells_view, lists_cells};
use crate::model::{Cell, CellView};
use crate::store::Store;

verus! {

/// The heading of the listing of the cells of an environment.
pub open spec fn heading_text(environment: Environment) -> Seq<char> {
    "Known cells for environment "@ + environment.name() + ":"@
}

/// The line of one cell in a listing.
pub open spec fn cell_line(c: CellView) -> Seq<char> {
    "  - "@ + Cell::label_text(c)
}

/// The listing of the cells `v`: the heading, then one line for each cell.
pub open spec fn listing_of(environment: Environment, v: Seq<CellView>) -> Seq<Seq<char>> {
    Seq::new(
        v.len() + 1,
        |i: int|
            if i == 0 {
                heading_text(environment)
            } else {
                cell_line(v[i - 1])
            },
    )
}

/// The cells that deployments in `environment` have targeted, and their
/// listing for people to read: a heading, then one line for each cell.
pub fn cells(store: &Store, environment: Environment) -> (r: (Vec<Cell>, Vec<String>))
    ensures
        lists_cells(cells_view(r.0@), store@.rows, environment.name(), store@.rows.len() as int),
        crate::coordinator::lines_view(r.1@) == listing_of(environment, cells_view(r.0@)),
{
    let found = fetch::cells(store, environment);
    let mut heading = String::from_str("Known cells for environment ");
    heading.append(environment.as_ref());
    heading.append(":");
    let mut lines: Vec<String> = Vec::new();
    lines.push(heading);
    let ghost v = cells_view(found@);
    let mut i: usize = 0;
    while i < found.len()
        invariant
            i <= found.len(),
            v == cells_view(found@),
            lines@.len() == i + 1,
            forall|k: int|
                0 <= k <= i ==> (#[trigger] lines@[k])@ == listing_of(environment, v)[k],
        decreases found.len() - i,
    {
        let mut line = String::from_str("  - ");
        let label = found[i].label();
        line.append(label.as_str());
        assert(v[i as int] == found@[i as int]@);
        lines.push(line);
        i += 1;
    }
    assert(crate::coordinator::lines_view(lines@) =~= listing_of(environment, v));
    (found, lines)
}

} // verus!
