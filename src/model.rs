use vstd::prelude::*;

use crate::error::{ErrorV, LibError};

verus! {

/// A text value that is either borrowed from its source or owned.
///
/// A stage that leaves a token as it is hands the same value on; only a token
/// that a stage changes becomes a new `Owned` value. Two values are equal when
/// their texts are, whichever variant holds them.
#[derive(Debug)]
pub enum CowStr<'a> {
    Borrowed(&'a str),
    Owned(String),
}

impl<'a> View for CowStr<'a> {
    type V = Seq<char>;

    open spec fn view(&self) -> Seq<char> {
        match self {
            CowStr::Borrowed(s) => s@,
            CowStr::Owned(s) => s@,
        }
    }
}

impl<'a> CowStr<'a> {
    /// The characters of the value, whichever variant holds them.
    pub fn as_str(&self) -> (r: &str)
        ensures
            r@ == self@,
    {
        match self {
            CowStr::Borrowed(s) => s,
            CowStr::Owned(s) => s.as_str(),
        }
    }

    /// An owned copy of the text.
    pub fn to_owned_string(&self) -> (r: String)
        ensures
            r@ == self@,
    {
        String::from_str(self.as_str())
    }
}

impl<'a> PartialEq for CowStr<'a> {
    fn eq(&self, other: &CowStr<'a>) -> (r: bool) {
        self.to_owned_string() == other.to_owned_string()
    }
}

impl<'a> vstd::std_specs::cmp::PartialEqSpecImpl for CowStr<'a> {
    open spec fn obeys_eq_spec() -> bool {
        true
    }

    open spec fn eq_spec(&self, other: &CowStr<'a>) -> bool {
        self@ == other@
    }
}

/// The characters of each element of a token sequence.
pub open spec fn words_view<'a>(v: Seq<CowStr<'a>>) -> Seq<Seq<char>> {
    Seq::new(v.len(), |i: int| v[i]@)
}

/// A token seen with its variant: whether it is an owned value, and its text.
pub struct TokenV {
    pub owned: bool,
    pub text: Seq<char>,
}

pub open spec fn token_view<'a>(c: CowStr<'a>) -> TokenV {
    TokenV { owned: c is Owned, text: c@ }
}

/// Each element of a token sequence with its variant.
pub open spec fn tokens_view<'a>(v: Seq<CowStr<'a>>) -> Seq<TokenV> {
    Seq::new(v.len(), |i: int| token_view(v[i]))
}

/// The text of each token.
pub open spec fn texts(v: Seq<TokenV>) -> Seq<Seq<char>> {
    Seq::new(v.len(), |i: int| v[i].text)
}

/// The given texts, each as a new owned token.
pub open spec fn owned_tokens(t: Seq<Seq<char>>) -> Seq<TokenV> {
    Seq::new(t.len(), |i: int| TokenV { owned: true, text: t[i] })
}

/// The characters of each string of a sequence of strings.
pub open spec fn strings_view(v: Seq<String>) -> Seq<Seq<char>> {
    Seq::new(v.len(), |i: int| v[i]@)
}

/// A tree-shaped value: the exchange shape of the pipeline's output.
#[derive(Debug, PartialEq)]
pub enum Json {
    Null,
    Bool(bool),
    Number(i64),
    String(String),
    Array(Vec<Json>),
    Object(Vec<(String, Json)>),
}

/// The mathematical value of a `Json`.
pub enum JsonV {
    Null,
    Bool(bool),
    Number(int),
    String(Seq<char>),
    Array(Seq<JsonV>),
    Object(Seq<(Seq<char>, JsonV)>),
}

impl View for Json {
    type V = JsonV;

    open spec fn view(&self) -> JsonV
        decreases self,
    {
        match self {
            Json::Null => JsonV::Null,
            Json::Bool(b) => JsonV::Bool(*b),
            Json::Number(n) => JsonV::Number(*n as int),
            Json::String(s) => JsonV::String(s@),
            Json::Array(a) => JsonV::Array(
                Seq::new(
                    a.len() as nat,
                    |i: int|
                        if 0 <= i < a.len() {
                            a[i].view()
                        } else {
                            JsonV::Null
                        },
                ),
            ),
            Json::Object(o) => JsonV::Object(
                Seq::new(
                    o.len() as nat,
                    |i: int|
                        if 0 <= i < o.len() {
                            (o[i].0@, o[i].1.view())
                        } else {
                            (Seq::empty(), JsonV::Null)
                        },
                ),
            ),
        }
    }
}

/// The structured value of a sequence of texts: an array of strings.
pub open spec fn json_strings(v: Seq<Seq<char>>) -> JsonV {
    JsonV::Array(Seq::new(v.len(), |i: int| JsonV::String(v[i])))
}

/// The value that flows between stages: raw text, one text value, a token
/// sequence, or a structured value.
#[derive(Debug)]
pub enum Data<'a> {
    OwnedStr(String),
    CowStr(CowStr<'a>),
    VecCowStr(Vec<CowStr<'a>>),
    Json(Json),
}

/// The mathematical value of a `Data`. Tokens keep their variant, so that a
/// token handed on as it came is told apart from a new owned copy.
pub enum DataV {
    OwnedStr(Seq<char>),
    CowStr(Seq<char>),
    VecCowStr(Seq<TokenV>),
    Json(JsonV),
}

impl<'a> View for Data<'a> {
    type V = DataV;

    open spec fn view(&self) -> DataV {
        match self {
            Data::OwnedStr(s) => DataV::OwnedStr(s@),
            Data::CowStr(s) => DataV::CowStr(s@),
            Data::VecCowStr(v) => DataV::VecCowStr(tokens_view(v@)),
            Data::Json(j) => DataV::Json(j@),
        }
    }
}

/// The outcome of a stage, with its value or its error seen through their views.
pub open spec fn outcome<'a>(r: Result<Data<'a>, LibError>) -> Result<DataV, ErrorV> {
    match r {
        Ok(d) => Ok(d@),
        Err(e) => Err(e@),
    }
}

/// The structured value that a value of each shape is delivered as.
pub open spec fn data_json(d: DataV) -> JsonV {
    match d {
        DataV::OwnedStr(s) => JsonV::String(s),
        DataV::CowStr(s) => JsonV::String(s),
        DataV::VecCowStr(v) => json_strings(texts(v)),
        DataV::Json(j) => j,
    }
}

/// The array of strings that holds the given texts, in order.
pub fn words_to_json<'a>(v: &Vec<CowStr<'a>>) -> (r: Json)
    ensures
        r@ == json_strings(words_view(v@)),
{
    let mut out: Vec<Json> = Vec::new();
    for i in 0..v.len()
        invariant
            out@.len() == i,
            forall|k: int| 0 <= k < i ==> out@[k]@ == JsonV::String(v@[k]@),
    {
        out.push(Json::String(v[i].to_owned_string()));
    }
    let r = Json::Array(out);
    assert(r@->Array_0 =~= json_strings(words_view(v@))->Array_0);
    r
}

impl<'a> Data<'a> {
    /// The name of the shape in the host language's terms.
    pub fn pytype(&self) -> (r: String)
        ensures
            r@ == match self {
                Data::OwnedStr(_) => "str"@,
                Data::CowStr(_) => "str"@,
                Data::VecCowStr(_) => "list[str]"@,
                Data::Json(_) => "dict"@,
            },
    {
        match self {
            Data::OwnedStr(_) => String::from_str("str"),
            Data::CowStr(_) => String::from_str("str"),
            Data::VecCowStr(_) => String::from_str("list[str]"),
            Data::Json(_) => String::from_str("dict"),
        }
    }

    /// The structured value that this value is delivered as: a text becomes a
    /// string, a token sequence an array of strings, and a structured value
    /// stays as it is.
    pub fn into_json(self) -> (r: Json)
        ensures
            r@ == data_json(self@),
    {
        match self {
            Data::OwnedStr(s) => Json::String(s),
            Data::CowStr(s) => Json::String(s.to_owned_string()),
            Data::VecCowStr(v) => {
                assert(texts(tokens_view(v@)) =~= words_view(v@));
                words_to_json(&v)
            },
            Data::Json(j) => j,
        }
    }
}

/// One unit of batch work: a caller-chosen identifier and the text to process.
#[derive(Debug, Clone)]
pub struct ProcessingRequest {
    pub id: String,
    pub input: String,
}

impl ProcessingRequest {
    pub fn new(id: String, input: String) -> (r: ProcessingRequest)
        ensures
            r.id@ == id@,
            r.input@ == input@,
    {
        ProcessingRequest { id, input }
    }
}

/// The result of one request: its identifier, and the structured output of the
/// pipeline or the error that stopped it.
#[derive(Debug)]
pub struct ProcessingResult {
    pub id: String,
    pub content: Result<Json, LibError>,
}

} // verus!
