use vstd::prelude::*;

verus! {

/// Byte value of `;`.
pub const SEMICOLON: u8 = 59;

/// Byte value of `,`.
pub const COMMA: u8 = 44;

/// Field separator chosen from the first line of a file: `;` when the line
/// holds one, `,` otherwise.
pub open spec fn delimiter_for(first_line: Seq<char>) -> u8 {
    if first_line.contains(';') {
        SEMICOLON
    } else {
        COMMA
    }
}

/// Picks the field separator of a delimited text file from its first line.
pub fn detect_delimiter(first_line: &str) -> (r: u8)
    ensures
        r == delimiter_for(first_line@),
{
    let n = first_line.unicode_len();
    let mut i: usize = 0;
    while i < n
        invariant
            n == first_line@.len(),
            i <= n,
            forall|j: int| 0 <= j < i ==> first_line@[j] != ';',
        decreases n - i,
    {
        if first_line.get_char(i) == ';' {
            return SEMICOLON;
        }
        i += 1;
    }
    COMMA
}

/// Why a file could not be turned into a dataset.
#[derive(Debug, Clone, Copy, PartialEq, Eq, Structural)]
pub enum LoadError {
    /// The file does not exist.
    NotFound,
    /// No data row survived parsing.
    EmptyDataset,
    /// Surviving rows disagree on the number of feature columns.
    InconsistentShape,
}

/// A labelled table: one feature row and one label per sample.
pub struct Dataset<V> {
    pub features: Vec<Vec<V>>,
    pub labels: Vec<V>,
}

/// The rows of a table as sequences.
pub open spec fn table_view<T>(t: Seq<Vec<T>>) -> Seq<Seq<T>> {
    t.map_values(|r: Vec<T>| r@)
}

/// A parsed row is kept when it has at least one field and every field parsed.
pub open spec fn row_parsed<V>(r: Seq<Option<V>>) -> bool {
    r.len() > 0 && forall|j: int| 0 <= j < r.len() ==> (#[trigger] r[j]) is Some
}

/// The values of a row whose fields all parsed.
pub open spec fn row_values<V>(r: Seq<Option<V>>) -> Seq<V> {
    Seq::new(r.len(), |j: int| r[j]->0)
}

/// The rows that survive parsing, in their original order.
pub open spec fn kept_rows<V>(rows: Seq<Seq<Option<V>>>) -> Seq<Seq<V>>
    decreases rows.len(),
{
    if rows.len() == 0 {
        Seq::empty()
    } else {
        let prev = kept_rows(rows.drop_last());
        if row_parsed(rows.last()) {
            prev.push(row_values(rows.last()))
        } else {
            prev
        }
    }
}

/// Feature part of each kept row: every column but the last.
pub open spec fn feature_part<V>(kept: Seq<Seq<V>>) -> Seq<Seq<V>> {
    kept.map_values(|r: Seq<V>| r.drop_last())
}

/// Label of each kept row: its last column.
pub open spec fn label_part<V>(kept: Seq<Seq<V>>) -> Seq<V> {
    kept.map_values(|r: Seq<V>| r.last())
}

/// Every row has as many columns as the first one.
pub open spec fn uniform_width<V>(t: Seq<Seq<V>>) -> bool {
    forall|i: int| 0 <= i < t.len() ==> (#[trigger] t[i]).len() == t[0].len()
}

/// What assembling a dataset from parsed rows gives.
pub open spec fn assembled<V>(rows: Seq<Seq<Option<V>>>) -> Result<(Seq<Seq<V>>, Seq<V>), LoadError> {
    let kept = kept_rows(rows);
    if kept.len() == 0 {
        Err(LoadError::EmptyDataset)
    } else if !uniform_width(kept) {
        Err(LoadError::InconsistentShape)
    } else {
        Ok((feature_part(kept), label_part(kept)))
    }
}

/// Every kept row has at least one column.
pub proof fn lemma_kept_rows_nonempty<V>(rows: Seq<Seq<Option<V>>>)
    ensures
        forall|i: int| 0 <= i < kept_rows(rows).len() ==> (#[trigger] kept_rows(rows)[i]).len() > 0,
    decreases rows.len(),
{
    if rows.len() > 0 {
        let prev = kept_rows(rows.drop_last());
        lemma_kept_rows_nonempty(rows.drop_last());
        assert forall|i: int| 0 <= i < kept_rows(rows).len() implies (#[trigger] kept_rows(
            rows,
        )[i]).len() > 0 by {
            if i < prev.len() {
                assert(kept_rows(rows)[i] == prev[i]);
            } else {
                assert(row_values(rows.last()).len() == rows.last().len());
            }
        }
    }
}

/// Each feature row is its kept row without the label: one column shorter.
pub proof fn lemma_feature_row_widths<V>(features: Seq<Vec<V>>, rows: Seq<Seq<Option<V>>>)
    requires
        table_view(features) == feature_part(kept_rows(rows)),
    ensures
        features.len() == kept_rows(rows).len(),
        forall|m: int|
            0 <= m < features.len() ==> (#[trigger] features[m])@.len() + 1 == kept_rows(
                rows,
            )[m].len(),
{
    let kept = kept_rows(rows);
    lemma_kept_rows_nonempty(rows);
    assert(table_view(features).len() == features.len());
    assert forall|m: int| 0 <= m < features.len() implies (#[trigger] features[m])@.len() + 1
        == kept[m].len() by {
        assert(table_view(features)[m] == features[m]@);
        assert(feature_part(kept)[m] == kept[m].drop_last());
        assert(kept[m].len() > 0);
    }
}

/// Dropping rows is decided row by row and keeps order: the rows kept from two
/// consecutive blocks are the rows kept from the first followed by those kept
/// from the second.
pub proof fn lemma_kept_rows_concat<V>(a: Seq<Seq<Option<V>>>, b: Seq<Seq<Option<V>>>)
    ensures
        kept_rows(a + b) == kept_rows(a) + kept_rows(b),
    decreases b.len(),
{
    if b.len() == 0 {
        assert(a + b =~= a);
        assert(kept_rows(a) + kept_rows(b) =~= kept_rows(a));
    } else {
        lemma_kept_rows_concat(a, b.drop_last());
        assert((a + b).drop_last() =~= a + b.drop_last());
        assert((a + b).last() == b.last());
        if row_parsed(b.last()) {
            assert(kept_rows(a + b) =~= kept_rows(a) + kept_rows(b));
        } else {
            assert(kept_rows(a + b) =~= kept_rows(a) + kept_rows(b));
        }
    }
}

/// When every row parsed, every row is kept, with its values, in order.
pub proof fn lemma_all_parsed_rows_kept<V>(rows: Seq<Seq<Option<V>>>)
    requires
        forall|i: int| 0 <= i < rows.len() ==> row_parsed(#[trigger] rows[i]),
    ensures
        kept_rows(rows).len() == rows.len(),
        forall|i: int| 0 <= i < rows.len() ==> (#[trigger] kept_rows(rows)[i]) == row_values(rows[i]),
    decreases rows.len(),
{
    if rows.len() > 0 {
        let prev = rows.drop_last();
        assert forall|i: int| 0 <= i < prev.len() implies row_parsed(#[trigger] prev[i]) by {
            assert(prev[i] == rows[i]);
        }
        lemma_all_parsed_rows_kept(prev);
        assert(row_parsed(rows[rows.len() - 1]));
    }
}

/// A row with a field that does not parse, among rows that all parse, is the
/// one row left out: the dataset keeps one row fewer than the file holds.
pub proof fn lemma_malformed_row_dropped<V>(rows: Seq<Seq<Option<V>>>, bad: int)
    requires
        0 <= bad < rows.len(),
        !row_parsed(rows[bad]),
        forall|i: int| 0 <= i < rows.len() && i != bad ==> row_parsed(#[trigger] rows[i]),
    ensures
        kept_rows(rows).len() == rows.len() - 1,
        kept_rows(rows) == kept_rows(rows.take(bad)) + kept_rows(rows.skip(bad + 1)),
{
    let before = rows.take(bad);
    let middle = seq![rows[bad]];
    let after = rows.skip(bad + 1);
    assert(rows =~= before + middle + after);
    lemma_kept_rows_concat(before + middle, after);
    lemma_kept_rows_concat(before, middle);
    assert(middle.drop_last() =~= Seq::<Seq<Option<V>>>::empty());
    assert(middle.last() == rows[bad]);
    assert(kept_rows(middle.drop_last()) =~= Seq::<Seq<V>>::empty());
    assert(kept_rows(middle) =~= Seq::<Seq<V>>::empty());
    assert forall|i: int| 0 <= i < before.len() implies row_parsed(#[trigger] before[i]) by {
        assert(before[i] == rows[i]);
    }
    assert forall|i: int| 0 <= i < after.len() implies row_parsed(#[trigger] after[i]) by {
        assert(after[i] == rows[i + bad + 1]);
    }
    lemma_all_parsed_rows_kept(before);
    lemma_all_parsed_rows_kept(after);
    assert(kept_rows(before) + kept_rows(middle) =~= kept_rows(before));
}

impl<V> Dataset<V> {
    /// Feature rows as sequences.
    pub open spec fn feature_rows(&self) -> Seq<Seq<V>> {
        table_view(self.features@)
    }

    /// Number of samples.
    pub fn n_samples(&self) -> (r: usize)
        ensures
            r == self.labels@.len(),
    {
        self.labels.len()
    }
}

/// Builds a dataset from the data rows of a file, each field already parsed
/// (`None` where a field is not a number). Rows with a field that did not parse
/// are dropped; the last column of each remaining row is its label.
pub fn dataset_from_rows<V: Copy>(rows: &Vec<Vec<Option<V>>>) -> (r: Result<Dataset<V>, LoadError>)
    ensures
        match (r, assembled(table_view(rows@))) {
            (Ok(d), Ok((f, l))) => d.feature_rows() == f && d.labels@ == l,
            (Err(e), Err(e2)) => e == e2,
            _ => false,
        },
        r is Ok ==> r->Ok_0.feature_rows().len() == r->Ok_0.labels@.len()
            && r->Ok_0.labels@.len() > 0 && uniform_width(r->Ok_0.feature_rows()),
{
    let ghost all = table_view(rows@);
    let mut features: Vec<Vec<V>> = Vec::new();
    let mut labels: Vec<V> = Vec::new();
    let mut i: usize = 0;
    while i < rows.len()
        invariant
            all == table_view(rows@),
            i <= rows.len(),
            table_view(features@) == feature_part(kept_rows(all.subrange(0, i as int))),
            labels@ == label_part(kept_rows(all.subrange(0, i as int))),
        decreases rows.len() - i,
    {
        let row = &rows[i];
        let ghost r = all[i as int];
        assert(all.subrange(0, i + 1).drop_last() =~= all.subrange(0, i as int));
        assert(all.subrange(0, i + 1).last() == r);
        let mut vals: Vec<V> = Vec::new();
        let mut ok = row.len() > 0;
        let mut j: usize = 0;
        while j < row.len() && ok
            invariant
                r == row@,
                j <= row.len(),
                ok ==> r.len() > 0,
                ok ==> vals@ =~= row_values(r).subrange(0, j as int),
                ok ==> forall|k: int| 0 <= k < j ==> (#[trigger] r[k]) is Some,
                !ok ==> !row_parsed(r),
            decreases row.len() - j,
        {
            match row[j] {
                Some(v) => {
                    vals.push(v);
                },
                None => {
                    ok = false;
                },
            }
            j += 1;
        }
        if ok {
            assert(vals@ =~= row_values(r));
            let ghost old_features = features@;
            let ghost kept_prev = kept_rows(all.subrange(0, i as int));
            let label = vals[vals.len() - 1];
            let mut feats = vals;
            feats.pop();
            proof {
                let kept = kept_rows(all.subrange(0, i + 1));
                assert(kept == kept_rows(all.subrange(0, i as int)).push(row_values(r)));
                assert(feats@ =~= row_values(r).drop_last());
            }
            features.push(feats);
            labels.push(label);
            proof {
                let kept = kept_rows(all.subrange(0, i + 1));
                assert(table_view(features@) =~= table_view(old_features).push(feats@));
                assert(feature_part(kept) =~= feature_part(kept_prev).push(row_values(r).drop_last()));
                assert(label_part(kept) =~= label_part(kept_prev).push(row_values(r).last()));
                assert(table_view(features@) =~= feature_part(kept));
                assert(labels@ =~= label_part(kept));
            }
        }
        i += 1;
    }
    assert(all.subrange(0, rows@.len() as int) =~= all);
    proof {
        lemma_feature_row_widths(features@, all);
    }
    if features.len() == 0 {
        return Err(LoadError::EmptyDataset);
    }
    let width = features[0].len();
    let mut k: usize = 1;
    while k < features.len()
        invariant
            1 <= k <= features.len(),
            all == table_view(rows@),
            features@.len() == kept_rows(all).len(),
            forall|m: int|
                0 <= m < features@.len() ==> (#[trigger] features@[m])@.len() + 1 == kept_rows(
                    all,
                )[m].len(),
            width == features@[0]@.len(),
            forall|m: int| 0 <= m < k ==> (#[trigger] features@[m]@).len() == width,
        decreases features.len() - k,
    {
        if features[k].len() != width {
            assert(kept_rows(all)[k as int].len() != kept_rows(all)[0].len());
            return Err(LoadError::InconsistentShape);
        }
        k += 1;
    }
    assert forall|m: int| 0 <= m < kept_rows(all).len() implies (#[trigger] kept_rows(all)[m]).len()
        == kept_rows(all)[0].len() by {
        assert(features@[m]@.len() == width);
    }
    Ok(Dataset { features, labels })
}

} // verus!
