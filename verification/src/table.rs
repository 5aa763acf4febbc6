//! Argument checks of the `Table` methods.

use vstd::prelude::*;
use crate::error::PydartError;
use crate::format::{decimal, push_decimal};

verus! {

/// The message of a column index past the table's last column.
pub open spec fn column_index_message(index: nat, num_columns: nat) -> Seq<char> {
    "column index "@ + decimal(index) + " out of range (table has "@ + decimal(num_columns) + " columns)"@
}

/// `Table.buffer_address(index)` selects one of the first record batch's `num_columns`
/// columns; an index past the last one is an error naming both numbers.
pub fn check_column_index(index: usize, num_columns: usize) -> (r: Result<(), PydartError>)
    ensures
        r is Ok <==> index < num_columns,
        r matches Err(e) ==> (e matches PydartError::Other(m)
            && m@ == column_index_message(index as nat, num_columns as nat)),
{
    if index < num_columns {
        return Ok(());
    }
    let mut m = String::from_str("column index ");
    push_decimal(&mut m, index);
    m.append(" out of range (table has ");
    push_decimal(&mut m, num_columns);
    m.append(" columns)");
    Err(PydartError::Other(m))
}

} // verus!
