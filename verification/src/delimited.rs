//! Lines of comma-separated text, and the rows that they make with a header.

use vstd::prelude::*;
use crate::record::Record;

verus! {

/// `String::push` appends one character to the end of the string.
pub assume_specification[ std::string::String::push ](text: &mut std::string::String, ch: char)
    ensures
        final(text)@ == old(text)@.push(ch),
;

/// The fields of a line: the texts before, between and after its commas.
/// A line without a comma is one field, and so is the empty line.
pub open spec fn fields_of(line: Seq<char>) -> Seq<Seq<char>>
    decreases line.len(),
{
    if line.len() == 0 {
        seq![Seq::empty()]
    } else if line.last() == ',' {
        fields_of(line.drop_last()).push(Seq::empty())
    } else {
        let before = fields_of(line.drop_last());
        before.drop_last().push(before.last().push(line.last()))
    }
}

/// The characters of each of some strings.
pub open spec fn texts(strings: Seq<String>) -> Seq<Seq<char>> {
    strings.map_values(|s: String| s@)
}

/// Cuts a line at its commas.
pub fn split_fields(line: &str) -> (fields: Vec<String>)
    ensures
        texts(fields@) == fields_of(line@),
{
    broadcast use vstd::string::group_string_axioms;

    let mut fields: Vec<String> = Vec::new();
    let mut current = String::new();
    for ch in it: line.chars()
        invariant
            it.seq() == line@,
            fields_of(it.seq().take(it.index() as int)) == texts(fields@).push(current@),
    {
        let ghost before = texts(fields@).push(current@);
        assert(line@.take(it.index() + 1).drop_last() =~= line@.take(it.index() as int));
        if ch == ',' {
            fields.push(current);
            current = String::new();
        } else {
            current.push(ch);
            assert(texts(fields@).push(current@) =~= before.drop_last().push(
                before.last().push(ch),
            ));
        }
    }
    assert(line@.take(line@.len() as int) =~= line@);
    fields.push(current);
    fields
}

/// The row that pairs each name with the field at the same place. Of a name
/// that occurs more than once, the last place counts.
pub open spec fn paired(names: Seq<Seq<char>>, fields: Seq<Seq<char>>) -> Map<
    Seq<char>,
    Seq<char>,
>
    recommends
        names.len() == fields.len(),
    decreases names.len(),
{
    if names.len() == 0 {
        Map::empty()
    } else {
        paired(names.drop_last(), fields.take(names.len() - 1)).insert(
            names.last(),
            fields[names.len() - 1],
        )
    }
}

/// The row that a line makes under a header, or `None` where the line has
/// more or fewer fields than the header has names.
pub fn parse_row(header: &[String], line: &str) -> (result: Option<Record<String>>)
    ensures
        result.is_some() == (fields_of(line@).len() == header@.len()),
        result matches Some(row) ==> row@ == paired(texts(header@), fields_of(line@)),
{
    let fields = split_fields(line);
    if fields.len() != header.len() {
        return None;
    }
    let ghost names = texts(header@);
    let ghost cells = fields_of(line@);
    let mut row: Record<String> = Record::new();
    let mut i: usize = 0;
    while i < header.len()
        invariant
            i <= header.len(),
            header.len() == fields.len(),
            names == texts(header@),
            cells == texts(fields@),
            row@ == paired(names.take(i as int), cells.take(i as int)),
        decreases header.len() - i,
    {
        assert(names.take(i + 1).drop_last() =~= names.take(i as int));
        assert(cells.take(i + 1).take(i as int) =~= cells.take(i as int));
        row.insert(header[i].clone(), fields[i].clone());
        i += 1;
    }
    assert(names.take(i as int) =~= names);
    assert(cells.take(i as int) =~= cells);
    Some(row)
}

/// The fields, written one after the other with a comma between each two.
pub open spec fn joined(fields: Seq<Seq<char>>) -> Seq<char>
    decreases fields.len(),
{
    if fields.len() == 0 {
        Seq::empty()
    } else if fields.len() == 1 {
        fields[0]
    } else {
        joined(fields.drop_last()).push(',') + fields.last()
    }
}

/// A line has at least one field, no field holds a comma, and the fields
/// joined by commas are the line.
pub proof fn lemma_fields_of_line(line: Seq<char>)
    ensures
        fields_of(line).len() >= 1,
        forall|i: int| 0 <= i < fields_of(line).len() ==> !(#[trigger] fields_of(line)[i]).contains(
            ',',
        ),
        joined(fields_of(line)) == line,
    decreases line.len(),
{
    if line.len() > 0 {
        let fields = fields_of(line);
        let before = fields_of(line.drop_last());
        lemma_fields_of_line(line.drop_last());
        if line.last() == ',' {
            assert(fields.drop_last() =~= before);
        } else {
            // The last field grows by a character that is no comma.
            let grown = before.last().push(line.last());
            assert forall|j: int| 0 <= j < grown.len() implies grown[j] != ',' by {
                if j < before.last().len() {
                    assert(before.last().contains(grown[j]));
                }
            }
            if before.len() > 1 {
                assert(fields.drop_last() =~= before.drop_last());
                assert(line =~= line.drop_last().push(line.last()));
            }
        }
    }
}

/// The fields of a line are the only way to cut it at commas: at least one
/// text, none with a comma, that joined by commas give the line.
pub proof fn lemma_fields_are_unique(fields: Seq<Seq<char>>, line: Seq<char>)
    requires
        fields.len() >= 1,
        forall|i: int| 0 <= i < fields.len() ==> !(#[trigger] fields[i]).contains(','),
        joined(fields) == line,
    ensures
        fields == fields_of(line),
    decreases line.len(),
{
    let last = fields.last();
    if last.len() == 0 {
        // The line is empty, or ends in the comma before the last field.
        assert(last =~= Seq::empty());
        if fields.len() > 1 {
            assert(line.drop_last() =~= joined(fields.drop_last()));
            lemma_fields_are_unique(fields.drop_last(), line.drop_last());
        }
    } else {
        // The line ends in the last character of the last field.
        let ch = last.last();
        let shorter = fields.update(fields.len() - 1, last.drop_last());
        assert(last.contains(ch));
        assert forall|j: int| 0 <= j < last.len() - 1 implies last.drop_last()[j] != ',' by {
            assert(last.contains(last[j]));
        }
        if fields.len() > 1 {
            assert(shorter.drop_last() =~= fields.drop_last());
            assert(joined(shorter) =~= line.drop_last());
        }
        lemma_fields_are_unique(shorter, line.drop_last());
        assert(shorter.last().push(ch) =~= last);
        assert(fields =~= shorter.drop_last().push(last));
    }
}

} // verus!
