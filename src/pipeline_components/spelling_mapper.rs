use vstd::prelude::*;
use vstd::hash_map::StringHashMap;

use crate::error::{ErrorV, LibError};
use crate::model::{tokens_view, CowStr, Data, DataV, TokenV};
use crate::pipeline_builder::Processor;
use crate::pipeline_components::table::{
    check_rows, csv_table_of, parse_table, read_table, rows_view, rows_well_formed,
};

verus! {

/// The word-to-word table of a list of `[target, alternative]` records: each
/// alternative spelling maps to its target, a later record overriding an
/// earlier one.
pub open spec fn spelling_table(rows: Seq<Seq<Seq<char>>>) -> Map<Seq<char>, Seq<char>>
    decreases rows.len(),
{
    if rows.len() == 0 {
        Map::empty()
    } else {
        spelling_table(rows.drop_last()).insert(rows.last()[1], rows.last()[0])
    }
}

/// A token after spelling substitution under `table`.
pub open spec fn respell(table: Map<Seq<char>, Seq<char>>, w: Seq<char>) -> Seq<char> {
    if table.contains_key(w) {
        table[w]
    } else {
        w
    }
}

/// A token after spelling substitution: a token that `table` maps becomes a
/// new owned token holding the target, any other is handed on as it came.
pub open spec fn respell_token(table: Map<Seq<char>, Seq<char>>, t: TokenV) -> TokenV {
    if table.contains_key(t.text) {
        TokenV { owned: true, text: table[t.text] }
    } else {
        t
    }
}

pub open spec fn respell_all(table: Map<Seq<char>, Seq<char>>, v: Seq<TokenV>) -> Seq<TokenV> {
    Seq::new(v.len(), |i: int| respell_token(table, v[i]))
}

/// Replaces each token that is an alternative spelling in its table by the
/// target spelling; other tokens pass through as they are.
pub struct SpellingMapper {
    spelling_map: StringHashMap<String>,
}

impl SpellingMapper {
    /// The table: alternative spelling to target spelling.
    pub closed spec fn table(&self) -> Map<Seq<char>, Seq<char>> {
        Map::new(
            |k: Seq<char>| self.spelling_map@.contains_key(k),
            |k: Seq<char>| self.spelling_map@[k]@,
        )
    }

    /// Builds the table from `[target, alternative]` records; a record with
    /// fewer than two fields is an `IO` error.
    pub fn from_table(rows: Vec<Vec<String>>) -> (r: Result<SpellingMapper, LibError>)
        ensures
            rows_well_formed(rows_view(rows@)) ==> r is Ok && r->Ok_0.table() == spelling_table(
                rows_view(rows@),
            ),
            !rows_well_formed(rows_view(rows@)) ==> r is Err && r->Err_0@ is IO,
    {
        if !check_rows(&rows) {
            return Err(LibError::IO(String::from_str("Failed to read record: fewer than two fields")));
        }
        let ghost model = rows_view(rows@);
        let mut m: StringHashMap<String> = StringHashMap::new();
        for i in 0..rows.len()
            invariant
                model == rows_view(rows@),
                rows_well_formed(model),
                forall|k: Seq<char>|
                    #![trigger m@.contains_key(k)]
                    m@.contains_key(k) <==> spelling_table(model.take(i as int)).contains_key(k),
                forall|k: Seq<char>|
                    #![trigger m@[k]]
                    m@.contains_key(k) ==> m@[k]@ == spelling_table(model.take(i as int))[k],
        {
            assert(model.take(i + 1).drop_last() =~= model.take(i as int));
            assert(model[i as int].len() >= 2);
            let target = rows[i][0].clone();
            let alternative = rows[i][1].clone();
            m.insert(alternative, target);
        }
        assert(model.take(rows.len() as int) =~= model);
        let r = SpellingMapper { spelling_map: m };
        assert(r.table() =~= spelling_table(model));
        Ok(r)
    }

    /// Reads the table from CSV text with a header line.
    pub fn from_csv(text: &str) -> (r: Result<SpellingMapper, LibError>)
        ensures
            match csv_table_of(text@) {
                Some(rows) => if rows_well_formed(rows) {
                    r is Ok && r->Ok_0.table() == spelling_table(rows)
                } else {
                    r is Err && r->Err_0@ is IO
                },
                None => r is Err && r->Err_0@ is IO,
            },
    {
        match parse_table(text) {
            Ok(rows) => SpellingMapper::from_table(rows),
            Err(msg) => Err(LibError::IO(msg)),
        }
    }

    /// Reads the table from the CSV file at `spelling_map_path`. A file that
    /// cannot be read gives an `IO` error and no stage.
    pub fn new(spelling_map_path: String) -> (r: Result<SpellingMapper, LibError>)
        ensures
            match r {
                Ok(m) => exists|rows: Seq<Seq<Seq<char>>>|
                    rows_well_formed(rows) && m.table() == spelling_table(rows),
                Err(e) => e@ is IO,
            },
    {
        match read_table(spelling_map_path.as_str()) {
            Ok(rows) => SpellingMapper::from_table(rows),
            Err(msg) => Err(LibError::IO(msg)),
        }
    }

    /// The target spelling that `word` maps to, if the table holds it.
    pub fn get(&self, word: &str) -> (r: Option<String>)
        ensures
            match r {
                Some(t) => self.table().contains_key(word@) && t@ == self.table()[word@],
                None => !self.table().contains_key(word@),
            },
    {
        match self.spelling_map.get(word) {
            Some(t) => Some(t.clone()),
            None => None,
        }
    }

    /// Each token respelled under the table: a token that the table maps
    /// becomes a new owned value, any other is handed on as the same value.
    pub fn map_words<'a>(&self, v: Vec<CowStr<'a>>) -> (r: Vec<CowStr<'a>>)
        ensures
            tokens_view(r@) == respell_all(self.table(), tokens_view(v@)),
            forall|i: int|
                0 <= i < v@.len() ==> if self.table().contains_key(#[trigger] v@[i]@) {
                    r@[i] is Owned
                } else {
                    r@[i] == v@[i]
                },
    {
        let ghost input = v@;
        let mut r: Vec<CowStr<'a>> = Vec::new();
        for word in it: v.into_iter()
            invariant
                it.seq() == input,
                r@.len() == it.index(),
                forall|k: int|
                    0 <= k < r@.len() ==> #[trigger] r@[k]@ == respell(self.table(), input[k]@),
                forall|k: int|
                    0 <= k < r@.len() ==> if self.table().contains_key(#[trigger] input[k]@) {
                        r@[k] is Owned
                    } else {
                        r@[k] == input[k]
                    },
        {
            match self.spelling_map.get(word.as_str()) {
                Some(target) => r.push(CowStr::Owned(target.clone())),
                None => r.push(word),
            }
        }
        assert(tokens_view(r@) =~= respell_all(self.table(), tokens_view(input)));
        r
    }
}

impl Processor for SpellingMapper {
    open spec fn spec_process(&self, input: DataV) -> Result<DataV, ErrorV> {
        match input {
            DataV::VecCowStr(v) => Ok(DataV::VecCowStr(respell_all(self.table(), v))),
            _ => Err(ErrorV::InvalidInput("SpellingMapper"@, "Data::VecCowStr"@)),
        }
    }

    open spec fn spec_name(&self) -> Seq<char> {
        "SpellingMapper"@
    }

    fn process<'a>(&self, input: Data<'a>) -> (r: Result<Data<'a>, LibError>) {
        match input {
            Data::VecCowStr(v) => Ok(Data::VecCowStr(self.map_words(v))),
            _ => Err(LibError::invalid_input("SpellingMapper", "Data::VecCowStr")),
        }
    }

    fn name(&self) -> (r: String) {
        String::from_str("SpellingMapper")
    }
}

} // verus!
