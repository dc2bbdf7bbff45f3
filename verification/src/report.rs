//! The text of a saved result: comma-separated records, one per line, and
//! the name of the file that holds them.

use vstd::prelude::*;

verus! {

/// The fields of a record, separated by commas.
pub open spec fn spec_joined(fields: Seq<Seq<char>>) -> Seq<char>
    decreases fields.len(),
{
    if fields.len() == 0 {
        Seq::empty()
    } else if fields.len() == 1 {
        fields[0]
    } else {
        spec_joined(fields.drop_last()).push(',') + fields.last()
    }
}

/// A record as one line: its fields separated by commas, then a line feed.
pub open spec fn spec_record(fields: Seq<Seq<char>>) -> Seq<char> {
    spec_joined(fields).push('\n')
}

/// The lines of the first `n` records, one after the other.
pub open spec fn spec_table(rows: Seq<Seq<Seq<char>>>, n: int) -> Seq<char>
    decreases n,
{
    if n <= 0 {
        Seq::empty()
    } else {
        spec_table(rows, n - 1) + spec_record(rows[n - 1])
    }
}

/// The fields of the rows as sequences of characters.
pub open spec fn spec_rows(rows: Seq<Vec<String>>) -> Seq<Seq<Seq<char>>> {
    Seq::new(rows.len(), |i: int| spec_fields(rows[i]@))
}

/// The fields of one row as sequences of characters.
pub open spec fn spec_fields(fields: Seq<String>) -> Seq<Seq<char>> {
    Seq::new(fields.len(), |j: int| fields[j]@)
}

/// `String::push_str` of std: appends the text to the string.
#[verifier::external_body]
fn push_text(s: &mut String, text: &str)
    ensures
        final(s)@ == old(s)@ + text@,
{
    s.push_str(text)
}

/// `String::push` of std: appends the character to the string.
#[verifier::external_body]
fn push_char(s: &mut String, c: char)
    ensures
        final(s)@ == old(s)@.push(c),
{
    s.push(c)
}

/// Appends one record to `text` as a line.
fn push_record(text: &mut String, fields: &Vec<String>)
    ensures
        final(text)@ == old(text)@ + spec_record(spec_fields(fields@)),
{
    let ghost before = text@;
    let ghost all = spec_fields(fields@);
    let mut j: usize = 0;
    while j < fields.len()
        invariant
            j <= fields.len(),
            all == spec_fields(fields@),
            text@ == before + spec_joined(all.subrange(0, j as int)),
        decreases fields.len() - j,
    {
        let ghost prefix = all.subrange(0, j as int);
        let ghost next = all.subrange(0, j + 1);
        if j > 0 {
            push_char(text, ',');
        }
        push_text(text, fields[j].as_str());
        proof {
            assert(next.drop_last() =~= prefix);
            assert(next.last() == fields[j as int]@);
            if j == 0 {
                assert(spec_joined(prefix) =~= Seq::<char>::empty());
                assert(text@ =~= before + spec_joined(next));
            } else {
                assert(text@ =~= before + spec_joined(next));
            }
        }
        j += 1;
    }
    assert(all.subrange(0, j as int) =~= all);
    push_char(text, '\n');
    assert(text@ =~= before + spec_record(all));
}

/// The text of a table: each row as one line, its fields separated by commas.
/// There is no header, and every line ends in a line feed.
pub fn csv_table(rows: &Vec<Vec<String>>) -> (text: String)
    ensures
        text@ == spec_table(spec_rows(rows@), rows.len() as int),
{
    let mut text = String::new();
    let mut i: usize = 0;
    assert(text@ =~= spec_table(spec_rows(rows@), 0));
    while i < rows.len()
        invariant
            i <= rows.len(),
            text@ == spec_table(spec_rows(rows@), i as int),
        decreases rows.len() - i,
    {
        push_record(&mut text, &rows[i]);
        assert(spec_rows(rows@)[i as int] == spec_fields(rows[i as int]@));
        i += 1;
    }
    text
}

/// The name of the file that holds a result: the prefix, the time stamp, and
/// the ending `.csv`.
pub fn file_name(prefix: &str, stamp: &str) -> (name: String)
    ensures
        name@ == prefix@ + stamp@ + ".csv"@,
{
    let mut name = String::new();
    push_text(&mut name, prefix);
    push_text(&mut name, stamp);
    push_text(&mut name, ".csv");
    assert(name@ =~= prefix@ + stamp@ + ".csv"@);
    name
}

/// The name of the file that holds a trajectory saved at the time `stamp`.
pub fn sim_file_name(stamp: &str) -> (name: String)
    ensures
        name@ == "Sim_"@ + stamp@ + ".csv"@,
{
    file_name("Sim_", stamp)
}

/// The name of the file that holds an optimisation result saved at the time
/// `stamp`.
pub fn opt_file_name(stamp: &str) -> (name: String)
    ensures
        name@ == "Opt_"@ + stamp@ + ".csv"@,
{
    file_name("Opt_", stamp)
}

} // verus!
