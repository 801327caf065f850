use vstd::prelude::*;
use vstd::hash_map::StringHashMap;

use crate::error::{ErrorV, LibError};
use crate::model::{strings_view, tokens_view, CowStr, Data, DataV, TokenV};
use crate::pipeline_builder::Processor;
use crate::pipeline_components::table::{
    check_rows, csv_table_of, parse_table, read_table, rows_view, rows_well_formed,
};
use crate::text::{comma_items, has_comma, split_items};

verus! {

/// The derivatives of a record's second field: its comma-separated items,
/// each trimmed of white space, where the field holds a comma; otherwise the
/// whole field as it is.
pub open spec fn field_items(f: Seq<char>) -> Seq<Seq<char>> {
    if f.contains(',') {
        comma_items(f)
    } else {
        seq![f]
    }
}

/// The lemma table of a list of `[lemma, derivatives]` records: each lemma
/// maps to the derivatives of its last record, which replaces any earlier
/// record of the same lemma.
pub open spec fn lemma_table(rows: Seq<Seq<Seq<char>>>) -> Map<Seq<char>, Seq<Seq<char>>>
    decreases rows.len(),
{
    if rows.len() == 0 {
        Map::empty()
    } else {
        let later = lemma_table(rows.drop_first());
        if later.contains_key(rows[0][0]) {
            later
        } else {
            later.insert(rows[0][0], field_items(rows[0][1]))
        }
    }
}

/// `m` with each of `derivatives` that it does not hold yet mapped to `lemma`.
pub open spec fn add_missing(
    m: Map<Seq<char>, Seq<char>>,
    derivatives: Seq<Seq<char>>,
    lemma: Seq<char>,
) -> Map<Seq<char>, Seq<char>>
    decreases derivatives.len(),
{
    if derivatives.len() == 0 {
        m
    } else {
        let before = add_missing(m, derivatives.drop_last(), lemma);
        if before.contains_key(derivatives.last()) {
            before
        } else {
            before.insert(derivatives.last(), lemma)
        }
    }
}

/// The reverse table of a list of `[lemma, derivatives]` records: each
/// derivative of a record that no later record of its lemma replaces maps to
/// that lemma. Where two lemmas claim one derivative, the later record wins.
pub open spec fn derivative_table(rows: Seq<Seq<Seq<char>>>) -> Map<Seq<char>, Seq<char>>
    decreases rows.len(),
{
    if rows.len() == 0 {
        Map::empty()
    } else {
        let later = derivative_table(rows.drop_first());
        if lemma_table(rows.drop_first()).contains_key(rows[0][0]) {
            later
        } else {
            add_missing(later, field_items(rows[0][1]), rows[0][0])
        }
    }
}

proof fn lemma_add_missing(m: Map<Seq<char>, Seq<char>>, ds: Seq<Seq<char>>, x: Seq<char>)
    ensures
        forall|d: Seq<char>|
            #[trigger] add_missing(m, ds, x).contains_key(d) <==> (m.contains_key(d)
                || ds.contains(d)),
        forall|d: Seq<char>|
            m.contains_key(d) ==> #[trigger] add_missing(m, ds, x)[d] == m[d],
        forall|d: Seq<char>|
            !m.contains_key(d) && ds.contains(d) ==> #[trigger] add_missing(m, ds, x)[d] == x,
    decreases ds.len(),
{
    if ds.len() > 0 {
        let front = ds.drop_last();
        let last = ds.last();
        lemma_add_missing(m, front, x);
        let before = add_missing(m, front, x);
        let after = add_missing(m, ds, x);
        assert(after == if before.contains_key(last) {
            before
        } else {
            before.insert(last, x)
        });
        assert forall|d: Seq<char>| ds.contains(d) <==> (front.contains(d) || d == last) by {
            if ds.contains(d) {
                let k = choose|k: int| 0 <= k < ds.len() && ds[k] == d;
                if k < ds.len() - 1 {
                    assert(front[k] == d);
                }
            }
            if front.contains(d) {
                let k = choose|k: int| 0 <= k < front.len() && front[k] == d;
                assert(ds[k] == d);
            }
            if d == last {
                assert(ds[ds.len() - 1] == d);
            }
        }
        assert forall|d: Seq<char>|
            #[trigger] after.contains_key(d) <==> (m.contains_key(d) || ds.contains(d)) by {
            assert(before.contains_key(d) <==> (m.contains_key(d) || front.contains(d)));
        }
        assert forall|d: Seq<char>| m.contains_key(d) implies #[trigger] after[d] == m[d] by {
            assert(before.contains_key(d));
            assert(before[d] == m[d]);
        }
        assert forall|d: Seq<char>|
            !m.contains_key(d) && ds.contains(d) implies #[trigger] after[d] == x by {
            if front.contains(d) {
                assert(before.contains_key(d));
                assert(before[d] == x);
            }
        }
    } else {
        assert forall|d: Seq<char>| !ds.contains(d) by {}
    }
}

/// The reverse table holds exactly the derivatives that the lemma table
/// lists, and maps each of them to a lemma whose derivatives include it.
pub proof fn lemma_derivatives_follow_lemmas(rows: Seq<Seq<Seq<char>>>)
    ensures
        forall|d: Seq<char>|
            #[trigger] derivative_table(rows).contains_key(d) ==> lemma_table(rows).contains_key(
                derivative_table(rows)[d],
            ) && lemma_table(rows)[derivative_table(rows)[d]].contains(d),
        forall|l: Seq<char>, d: Seq<char>|
            lemma_table(rows).contains_key(l) && #[trigger] lemma_table(rows)[l].contains(d)
                ==> derivative_table(rows).contains_key(d),
    decreases rows.len(),
{
    if rows.len() > 0 {
        let rest = rows.drop_first();
        lemma_derivatives_follow_lemmas(rest);
        let x = rows[0][0];
        let items = field_items(rows[0][1]);
        if !lemma_table(rest).contains_key(x) {
            lemma_add_missing(derivative_table(rest), items, x);
            let lt = lemma_table(rows);
            let dt = derivative_table(rows);
            assert forall|d: Seq<char>| #[trigger] dt.contains_key(d) implies lt.contains_key(dt[d])
                && lt[dt[d]].contains(d) by {
                if derivative_table(rest).contains_key(d) {
                    assert(dt[d] == derivative_table(rest)[d]);
                    assert(lemma_table(rest).contains_key(derivative_table(rest)[d]));
                    assert(dt[d] != x);
                    assert(lt[dt[d]] == lemma_table(rest)[dt[d]]);
                } else {
                    assert(items.contains(d));
                    assert(dt[d] == x);
                }
            }
            assert forall|l: Seq<char>, d: Seq<char>|
                lt.contains_key(l) && #[trigger] lt[l].contains(d) implies dt.contains_key(d) by {
                if l != x {
                    assert(lemma_table(rest)[l] == lt[l]);
                }
            }
        } else {
            assert(lemma_table(rows) == lemma_table(rest));
            assert(derivative_table(rows) == derivative_table(rest));
        }
    }
}

/// A token after lemmatization: a lemma stays, a derivative becomes its
/// lemma, and an unknown token stays.
pub open spec fn lemmatize(
    lemmas: Map<Seq<char>, Seq<Seq<char>>>,
    derivatives: Map<Seq<char>, Seq<char>>,
    w: Seq<char>,
) -> Seq<char> {
    if lemmas.contains_key(w) {
        w
    } else if derivatives.contains_key(w) {
        derivatives[w]
    } else {
        w
    }
}

/// A token after lemmatization: a derivative that is not itself a lemma
/// becomes a new owned token holding its lemma, any other is handed on as it
/// came.
pub open spec fn lemmatize_token(
    lemmas: Map<Seq<char>, Seq<Seq<char>>>,
    derivatives: Map<Seq<char>, Seq<char>>,
    t: TokenV,
) -> TokenV {
    if !lemmas.contains_key(t.text) && derivatives.contains_key(t.text) {
        TokenV { owned: true, text: derivatives[t.text] }
    } else {
        t
    }
}

pub open spec fn lemmatize_all(
    lemmas: Map<Seq<char>, Seq<Seq<char>>>,
    derivatives: Map<Seq<char>, Seq<char>>,
    v: Seq<TokenV>,
) -> Seq<TokenV> {
    Seq::new(v.len(), |i: int| lemmatize_token(lemmas, derivatives, v[i]))
}

/// The derivatives of a record's second field, as `field_items` states.
fn split_field(f: &str) -> (r: Vec<String>)
    ensures
        strings_view(r@) == field_items(f@),
{
    if has_comma(f) {
        split_items(f)
    } else {
        let mut r: Vec<String> = Vec::new();
        r.push(String::from_str(f));
        assert(strings_view(r@) =~= seq![f@]);
        r
    }
}

/// Replaces each derivative form by its lemma, through a reverse table built
/// once when the stage is made.
pub struct Lemmatizer {
    lemma_map: StringHashMap<Vec<String>>,
    derivative_map: StringHashMap<String>,
}

impl Lemmatizer {
    /// Each lemma with its derivatives.
    pub closed spec fn lemmas(&self) -> Map<Seq<char>, Seq<Seq<char>>> {
        Map::new(
            |k: Seq<char>| self.lemma_map@.contains_key(k),
            |k: Seq<char>| strings_view(self.lemma_map@[k]@),
        )
    }

    /// Each derivative with its lemma.
    pub closed spec fn derivatives(&self) -> Map<Seq<char>, Seq<char>> {
        Map::new(
            |k: Seq<char>| self.derivative_map@.contains_key(k),
            |k: Seq<char>| self.derivative_map@[k]@,
        )
    }

    /// Builds both tables from `[lemma, derivatives]` records, the
    /// derivatives separated by commas and trimmed of white space; a record
    /// with fewer than two fields is an `IO` error.
    pub fn from_table(rows: Vec<Vec<String>>) -> (r: Result<Lemmatizer, LibError>)
        ensures
            rows_well_formed(rows_view(rows@)) ==> r is Ok && r->Ok_0.lemmas() == lemma_table(
                rows_view(rows@),
            ) && r->Ok_0.derivatives() == derivative_table(rows_view(rows@)),
            !rows_well_formed(rows_view(rows@)) ==> r is Err && r->Err_0@ is IO,
    {
        if !check_rows(&rows) {
            return Err(LibError::IO(String::from_str("Failed to read record: fewer than two fields")));
        }
        let ghost model = rows_view(rows@);
        let mut lemma_map: StringHashMap<Vec<String>> = StringHashMap::new();
        let mut derivative_map: StringHashMap<String> = StringHashMap::new();
        let n = rows.len();
        let mut j = n;
        while j > 0
            invariant
                model == rows_view(rows@),
                n == rows@.len(),
                rows_well_formed(model),
                j <= n,
                forall|k: Seq<char>|
                    #![trigger lemma_map@.contains_key(k)]
                    lemma_map@.contains_key(k) <==> lemma_table(
                        model.subrange(j as int, n as int),
                    ).contains_key(k),
                forall|k: Seq<char>|
                    #![trigger lemma_map@[k]]
                    lemma_map@.contains_key(k) ==> strings_view(lemma_map@[k]@) == lemma_table(
                        model.subrange(j as int, n as int),
                    )[k],
                forall|k: Seq<char>|
                    #![trigger derivative_map@.contains_key(k)]
                    derivative_map@.contains_key(k) <==> derivative_table(
                        model.subrange(j as int, n as int),
                    ).contains_key(k),
                forall|k: Seq<char>|
                    #![trigger derivative_map@[k]]
                    derivative_map@.contains_key(k) ==> derivative_map@[k]@ == derivative_table(
                        model.subrange(j as int, n as int),
                    )[k],
            decreases j,
        {
            j = j - 1;
            assert(model.subrange(j as int, n as int).drop_first() =~= model.subrange(
                j + 1,
                n as int,
            ));
            assert(model.subrange(j as int, n as int)[0] == model[j as int]);
            assert(model[j as int].len() >= 2);
            let lemma = &rows[j][0];
            if !lemma_map.contains_key(lemma.as_str()) {
                let items = split_field(rows[j][1].as_str());
                let ghost before = derivative_table(model.subrange(j + 1, n as int));
                for k in 0..items.len()
                    invariant
                        forall|d: Seq<char>|
                            #![trigger derivative_map@.contains_key(d)]
                            derivative_map@.contains_key(d) <==> add_missing(
                                before,
                                strings_view(items@).take(k as int),
                                lemma@,
                            ).contains_key(d),
                        forall|d: Seq<char>|
                            #![trigger derivative_map@[d]]
                            derivative_map@.contains_key(d) ==> derivative_map@[d]@
                                == add_missing(
                                before,
                                strings_view(items@).take(k as int),
                                lemma@,
                            )[d],
                {
                    assert(strings_view(items@).take(k + 1).drop_last() =~= strings_view(
                        items@,
                    ).take(k as int));
                    if !derivative_map.contains_key(items[k].as_str()) {
                        derivative_map.insert(items[k].clone(), lemma.clone());
                    }
                }
                assert(strings_view(items@).take(items@.len() as int) =~= strings_view(items@));
                lemma_map.insert(lemma.clone(), items);
            }
        }
        assert(model.subrange(0, n as int) =~= model);
        let r = Lemmatizer { lemma_map, derivative_map };
        assert(r.lemmas() =~= lemma_table(model));
        assert(r.derivatives() =~= derivative_table(model));
        Ok(r)
    }

    /// Reads the tables from CSV text with a header line.
    pub fn from_csv(text: &str) -> (r: Result<Lemmatizer, LibError>)
        ensures
            match csv_table_of(text@) {
                Some(rows) => if rows_well_formed(rows) {
                    r is Ok && r->Ok_0.lemmas() == lemma_table(rows) && r->Ok_0.derivatives()
                        == derivative_table(rows)
                } else {
                    r is Err && r->Err_0@ is IO
                },
                None => r is Err && r->Err_0@ is IO,
            },
    {
        match parse_table(text) {
            Ok(rows) => Lemmatizer::from_table(rows),
            Err(msg) => Err(LibError::IO(msg)),
        }
    }

    /// Reads the tables from the CSV file at `lemma_map_path`. A file that
    /// cannot be read gives an `IO` error and no stage.
    pub fn new(lemma_map_path: String) -> (r: Result<Lemmatizer, LibError>)
        ensures
            match r {
                Ok(l) => exists|rows: Seq<Seq<Seq<char>>>|
                    rows_well_formed(rows) && l.lemmas() == lemma_table(rows) && l.derivatives()
                        == derivative_table(rows),
                Err(e) => e@ is IO,
            },
    {
        match read_table(lemma_map_path.as_str()) {
            Ok(rows) => Lemmatizer::from_table(rows),
            Err(msg) => Err(LibError::IO(msg)),
        }
    }

    /// The derivatives recorded for `lemma`, if it is a lemma.
    pub fn derivatives_of(&self, lemma: &str) -> (r: Option<Vec<String>>)
        ensures
            match r {
                Some(v) => self.lemmas().contains_key(lemma@) && strings_view(v@)
                    == self.lemmas()[lemma@],
                None => !self.lemmas().contains_key(lemma@),
            },
    {
        match self.lemma_map.get(lemma) {
            Some(items) => {
                let mut out: Vec<String> = Vec::new();
                for i in 0..items.len()
                    invariant
                        out@.len() == i,
                        forall|k: int| 0 <= k < i ==> #[trigger] out@[k]@ == items@[k]@,
                {
                    out.push(items[i].clone());
                }
                assert(strings_view(out@) =~= strings_view(items@));
                Some(out)
            },
            None => None,
        }
    }

    /// Each token lemmatized: a derivative that is not itself a lemma becomes
    /// a new owned value, any other token is handed on as the same value.
    pub fn map_words<'a>(&self, v: Vec<CowStr<'a>>) -> (r: Vec<CowStr<'a>>)
        ensures
            tokens_view(r@) == lemmatize_all(self.lemmas(), self.derivatives(), tokens_view(v@)),
            forall|i: int|
                0 <= i < v@.len() ==> if !self.lemmas().contains_key(#[trigger] v@[i]@)
                    && self.derivatives().contains_key(v@[i]@) {
                    r@[i] is Owned
                } else {
                    r@[i] == v@[i]
                },
    {
        let ghost input = v@;
        let mut r: Vec<CowStr<'a>> = Vec::new();
        for word in it: v.into_iter()
            invariant
                it.seq() == input,
                r@.len() == it.index(),
                forall|k: int|
                    0 <= k < r@.len() ==> #[trigger] r@[k]@ == lemmatize(
                        self.lemmas(),
                        self.derivatives(),
                        input[k]@,
                    ),
                forall|k: int|
                    0 <= k < r@.len() ==> if !self.lemmas().contains_key(#[trigger] input[k]@)
                        && self.derivatives().contains_key(input[k]@) {
                        r@[k] is Owned
                    } else {
                        r@[k] == input[k]
                    },
        {
            if self.lemma_map.contains_key(word.as_str()) {
                r.push(word);
            } else {
                match self.derivative_map.get(word.as_str()) {
                    Some(lemma) => r.push(CowStr::Owned(lemma.clone())),
                    None => r.push(word),
                }
            }
        }
        assert(tokens_view(r@) =~= lemmatize_all(
            self.lemmas(),
            self.derivatives(),
            tokens_view(input),
        ));
        r
    }
}

impl Processor for Lemmatizer {
    open spec fn spec_process(&self, input: DataV) -> Result<DataV, ErrorV> {
        match input {
            DataV::VecCowStr(v) => Ok(
                DataV::VecCowStr(lemmatize_all(self.lemmas(), self.derivatives(), v)),
            ),
            _ => Err(ErrorV::InvalidInput("Lemmatizer"@, "Data::VecCowStr"@)),
        }
    }

    open spec fn spec_name(&self) -> Seq<char> {
        "Lemmatizer"@
    }

    fn process<'a>(&self, input: Data<'a>) -> (r: Result<Data<'a>, LibError>) {
        match input {
            Data::VecCowStr(v) => Ok(Data::VecCowStr(self.map_words(v))),
            _ => Err(LibError::invalid_input("Lemmatizer", "Data::VecCowStr")),
        }
    }

    fn name(&self) -> (r: String) {
        String::from_str("Lemmatizer")
    }
}

} // verus!
