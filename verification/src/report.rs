//! The text of the two result files: the residual trace of an iterative
//! solver and the solution of a named method.
//!
//! Numbers arrive already rendered, as the bytes of their decimal text; the
//! functions here lay out lines, separators and line numbers.

use vstd::prelude::*;
use crate::dense::rows_of;

verus! {

/// The ASCII digit for `d < 10`.
pub open spec fn digit(d: nat) -> u8 {
    (48 + d) as u8
}

/// The decimal digits of `n`, most significant first, without leading zeros.
pub open spec fn decimal_spec(n: nat) -> Seq<u8>
    decreases n,
{
    if n < 10 {
        seq![digit(n)]
    } else {
        decimal_spec(n / 10).push(digit(n % 10))
    }
}

/// The header line of a residual trace: `iteration,residual` and a line feed.
pub open spec fn trace_header() -> Seq<u8> {
    seq![
        105u8, 116u8, 101u8, 114u8, 97u8, 116u8, 105u8, 111u8, 110u8, 44u8, 114u8, 101u8, 115u8,
        105u8, 100u8, 117u8, 97u8, 108u8, 10u8,
    ]
}

/// Line `i` of a residual trace: the number of the line, a comma, the value
/// and a line feed.
pub open spec fn trace_line(i: nat, value: Seq<u8>) -> Seq<u8> {
    decimal_spec(i).push(44u8) + value.push(10u8)
}

/// The first `k` lines of the body of a residual trace.
pub open spec fn trace_lines(values: Seq<Seq<u8>>, k: nat) -> Seq<u8>
    decreases k,
{
    if k == 0 {
        Seq::empty()
    } else {
        trace_lines(values, (k - 1) as nat) + trace_line((k - 1) as nat, values[k - 1])
    }
}

/// The text of a residual trace: the header, then one line for each value,
/// numbered from zero.
pub open spec fn trace_text(values: Seq<Seq<u8>>) -> Seq<u8> {
    trace_header() + trace_lines(values, values.len())
}

/// The first `k` components of a solution, separated by a comma and a space.
pub open spec fn joined(components: Seq<Seq<u8>>, k: nat) -> Seq<u8>
    decreases k,
{
    if k == 0 {
        Seq::empty()
    } else if k == 1 {
        components[0]
    } else {
        joined(components, (k - 1) as nat).push(44u8).push(32u8) + components[k - 1]
    }
}

/// The text of a solution: the name of the method on a line of its own,
/// then the components on one line, separated by a comma and a space.
pub open spec fn solution_text(name: Seq<u8>, components: Seq<Seq<u8>>) -> Seq<u8> {
    name.push(10u8) + joined(components, components.len()).push(10u8)
}

/// Appends `more` to `out`.
pub fn append(out: &mut Vec<u8>, more: &Vec<u8>)
    ensures
        final(out)@ == old(out)@ + more@,
{
    let ghost before = out@;
    let mut i: usize = 0;
    while i < more.len()
        invariant
            i <= more.len(),
            out@ == before + more@.subrange(0, i as int),
        decreases more.len() - i,
    {
        out.push(more[i]);
        i += 1;
    }
}

/// The decimal digits of `n`.
pub fn decimal(n: usize) -> (out: Vec<u8>)
    ensures
        out@ == decimal_spec(n as nat),
    decreases n,
{
    if n < 10 {
        let mut out: Vec<u8> = Vec::new();
        out.push(48 + n as u8);
        out
    } else {
        let mut out = decimal(n / 10);
        out.push(48 + (n % 10) as u8);
        out
    }
}

/// Lays out a residual trace from the rendered residual norms.
pub fn residual_trace_csv(values: &Vec<Vec<u8>>) -> (text: Vec<u8>)
    ensures
        text@ == trace_text(rows_of(values)),
{
    let mut text: Vec<u8> = Vec::new();
    text.push(105);
    text.push(116);
    text.push(101);
    text.push(114);
    text.push(97);
    text.push(116);
    text.push(105);
    text.push(111);
    text.push(110);
    text.push(44);
    text.push(114);
    text.push(101);
    text.push(115);
    text.push(105);
    text.push(100);
    text.push(117);
    text.push(97);
    text.push(108);
    text.push(10);
    let mut i: usize = 0;
    while i < values.len()
        invariant
            i <= values.len(),
            text@ == trace_header() + trace_lines(rows_of(values), i as nat),
        decreases values.len() - i,
    {
        let number = decimal(i);
        append(&mut text, &number);
        text.push(44);
        append(&mut text, &values[i]);
        text.push(10);
        i += 1;
    }
    text
}

/// Lays out the solution of the method called `name` from its rendered
/// components.
pub fn solution_csv(name: &Vec<u8>, components: &Vec<Vec<u8>>) -> (text: Vec<u8>)
    ensures
        text@ == solution_text(name@, rows_of(components)),
{
    let mut text: Vec<u8> = Vec::new();
    append(&mut text, name);
    text.push(10);
    let ghost head = text@;
    let mut i: usize = 0;
    while i < components.len()
        invariant
            i <= components.len(),
            head == name@.push(10u8),
            text@ == head + joined(rows_of(components), i as nat),
        decreases components.len() - i,
    {
        if i > 0 {
            text.push(44);
            text.push(32);
        }
        append(&mut text, &components[i]);
        i += 1;
    }
    text.push(10);
    text
}

} // verus!
