//! The checks of the writers on the shape of their data, and the exception
//! a failed value conversion is raised as.

use crate::error::{ExceptionKind, RubyError};
use crate::rvalue::{lemma_rvs_len, rvs, RValue, RView};
use crate::schema::{lemma_nodes_view_index, node_name, node_view, nodes_view, view_name, NodeView, SchemaNode};
use crate::text::{find_str, has_infix, nat_text, push_nat, push_str};
use vstd::prelude::*;

verus! {

broadcast use vstd::string::group_string_axioms;

/// Whether the message of a failed conversion tells of bad text encoding.
pub open spec fn is_encoding_message(m: Seq<char>) -> bool {
    has_infix(m, "EncodingError"@) || has_infix(m, "invalid utf-8"@)
}

/// The exception a failed value conversion with message `msg` is raised as:
/// an `EncodingError` when the message tells of bad encoding (with the text
/// after the first `EncodingError: ` when there is one), a `RuntimeError`
/// otherwise.
pub fn conversion_exception(msg: &str) -> (r: RubyError)
    ensures
        !is_encoding_message(msg@) ==> r.kind == ExceptionKind::RuntimeError && r.message@ == msg@,
        is_encoding_message(msg@) ==> r.kind == ExceptionKind::EncodingError,
        is_encoding_message(msg@) && !has_infix(msg@, "EncodingError: "@) ==> r.message@ == msg@,
        is_encoding_message(msg@) && has_infix(msg@, "EncodingError: "@) ==> exists|i: int|
            {
                &&& 0 <= i && i + 15 <= msg@.len()
                &&& #[trigger] msg@.subrange(i, i + 15) == "EncodingError: "@
                &&& forall|j: int| 0 <= j < i ==> #[trigger] msg@.subrange(j, j + 15) != "EncodingError: "@
                &&& r.message@ == msg@.skip(i + 15)
            },
{
    proof {
        reveal_strlit("EncodingError: ");
    }
    let enc = crate::text::contains_str(msg, "EncodingError") || crate::text::contains_str(msg, "invalid utf-8");
    if !enc {
        return RubyError::new(ExceptionKind::RuntimeError, msg.to_string());
    }
    let cs = crate::text::chars_of(msg);
    let n = cs.len();
    match find_str(msg, "EncodingError: ") {
        Some(i) => {
            assert("EncodingError: "@.len() == 15);
            assert(i + 15 <= n);
            let rest = crate::text::string_of_range(cs.as_slice(), i + 15, n);
            proof {
                assert(rest@ =~= msg@.skip(i + 15));
            }
            RubyError::new(ExceptionKind::EncodingError, rest)
        },
        None => RubyError::new(ExceptionKind::EncodingError, msg.to_string()),
    }
}

/// A row given to `write_rows` must be an array.
pub fn check_row(row: &RValue) -> (r: Result<(), RubyError>)
    ensures
        (row@ is Array) <==> r is Ok,
        r matches Err(e) ==> e.kind == ExceptionKind::TypeError && e.message@ == "each row must be an array"@,
{
    match row {
        RValue::Array(_) => Ok(()),
        _ => Err(RubyError::new(ExceptionKind::TypeError, "each row must be an array".to_string())),
    }
}

/// The message for a batch with the wrong number of columns.
pub open spec fn batch_width_text(got: nat, want: nat) -> Seq<char> {
    "Batch has "@ + nat_text(got) + " columns but schema has "@ + nat_text(want)
}

/// A batch given to `write_columns` must be an array with one array of
/// values per column of the schema.
pub open spec fn batch_check_spec(batch: RView, columns: nat) -> Result<(), (ExceptionKind, Seq<char>)> {
    match batch {
        RView::Array(cols) => if cols.len() != columns {
            Err((ExceptionKind::RuntimeError, batch_width_text(cols.len(), columns)))
        } else {
            Ok(())
        },
        _ => Err((ExceptionKind::TypeError, "each batch must be an array of column values"@)),
    }
}

/// Check the shape of a batch of columns (see `batch_check_spec`).
pub fn check_column_batch(batch: &RValue, columns: usize) -> (r: Result<(), RubyError>)
    ensures
        match r {
            Ok(_) => batch_check_spec(batch@, columns as nat) is Ok,
            Err(e) => batch_check_spec(batch@, columns as nat) == Err::<(), (ExceptionKind, Seq<char>)>(
                (e.kind, e.message@),
            ),
        },
{
    match batch {
        RValue::Array(cols) => {
            proof {
                lemma_rvs_len(cols@);
            }
            if cols.len() != columns {
                let mut m = "Batch has ".to_string();
                push_nat(&mut m, cols.len() as u128);
                push_str(&mut m, " columns but schema has ");
                push_nat(&mut m, columns as u128);
                proof {
                    assert(m@ =~= batch_width_text(cols@.len(), columns as nat));
                }
                Err(RubyError::new(ExceptionKind::RuntimeError, m))
            } else {
                Ok(())
            }
        },
        _ => Err(RubyError::new(ExceptionKind::TypeError, "each batch must be an array of column values".to_string())),
    }
}

/// The values of one column in a batch must be an array.
pub fn check_column_values(index: usize, values: &RValue) -> (r: Result<(), RubyError>)
    ensures
        (values@ is Array) <==> r is Ok,
        r matches Err(e) ==> e.kind == ExceptionKind::TypeError && e.message@ == "Column "@ + nat_text(index as nat)
            + " values must be an array"@,
{
    match values {
        RValue::Array(_) => Ok(()),
        _ => {
            let mut m = "Column ".to_string();
            push_nat(&mut m, index as u128);
            push_str(&mut m, " values must be an array");
            Err(RubyError::new(ExceptionKind::TypeError, m))
        },
    }
}

/// The column names of a schema whose root is a struct.
pub fn column_names(root: &SchemaNode) -> (r: Result<Vec<String>, RubyError>)
    ensures
        match node_view(*root) {
            NodeView::Struct { fields, .. } => r matches Ok(names) && names@.len() == fields.len() && forall|i: int|
                0 <= i < fields.len() ==> #[trigger] names@[i]@ == view_name(fields[i]),
            _ => r matches Err(e) && e.kind == ExceptionKind::RuntimeError && e.message@ == "Schema root must be a struct"@,
        },
{
    match root {
        SchemaNode::Struct { fields, .. } => {
            let mut names: Vec<String> = Vec::new();
            let mut i: usize = 0;
            proof {
                crate::schema::lemma_nodes_view_len(fields@);
            }
            while i < fields.len()
                invariant
                    i <= fields@.len(),
                    nodes_view(fields@).len() == fields@.len(),
                    names@.len() == i,
                    forall|j: int| 0 <= j < i ==> #[trigger] names@[j]@ == view_name(nodes_view(fields@)[j]),
                decreases fields.len() - i,
            {
                proof {
                    lemma_nodes_view_index(fields@, i as int);
                }
                names.push(node_name(&fields[i]).clone());
                i = i + 1;
            }
            Ok(names)
        },
        _ => Err(RubyError::new(ExceptionKind::RuntimeError, "Schema root must be a struct".to_string())),
    }
}

} // verus!
