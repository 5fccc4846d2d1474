//! Response and request headers: an ordered list of named fields. Setting a
//! field replaces the first field of the same name, so a list that is built
//! by `set` alone holds each name once. Names are compared as they are
//! written.

use crate::bytes::{
    first_index_of, lemma_first_index_absent, lemma_first_index_exists, lemma_first_index_unique,
};
use vstd::prelude::*;

verus! {

/// A point in time in UTC, broken down as a calendar date and a time of day.
#[derive(Clone, Copy, Debug, PartialEq, Eq, Structural)]
pub struct HttpDate {
    /// Seconds after the minute.
    pub second: i32,
    /// Minutes after the hour.
    pub minute: i32,
    /// Hours after midnight.
    pub hour: i32,
    /// Day of the month, counted from 1.
    pub day: i32,
    /// Months since January.
    pub month: i32,
    /// Years since 1900.
    pub year: i32,
    /// Days since Sunday.
    pub weekday: i32,
}

/// Calls `time::now_utc` and copies the fields of the calendar time it
/// returns. The result depends on the clock, so nothing is claimed of it.
#[verifier::external_body]
pub(crate) fn now_utc() -> (date: HttpDate) {
    let tm = time::now_utc();
    HttpDate {
        second: tm.tm_sec,
        minute: tm.tm_min,
        hour: tm.tm_hour,
        day: tm.tm_mday,
        month: tm.tm_mon,
        year: tm.tm_year,
        weekday: tm.tm_wday,
    }
}

/// The value of a header field.
#[derive(Debug)]
pub enum HeaderValue {
    Text(String),
    Date(HttpDate),
}

/// The mathematical model of a `HeaderValue`.
pub enum HeaderValueModel {
    Text(Seq<char>),
    Date(HttpDate),
}

impl View for HeaderValue {
    type V = HeaderValueModel;

    open spec fn view(&self) -> HeaderValueModel {
        match self {
            HeaderValue::Text(text) => HeaderValueModel::Text(text@),
            HeaderValue::Date(date) => HeaderValueModel::Date(*date),
        }
    }
}

/// The mathematical model of a header list: names and values in order.
pub type Fields = Seq<(Seq<char>, HeaderValueModel)>;

/// The names of the fields, in order.
pub open spec fn field_names(fields: Fields) -> Seq<Seq<char>> {
    Seq::new(fields.len(), |i: int| fields[i].0)
}

/// The value of the first field named `name`, if there is one.
pub open spec fn field_value(fields: Fields, name: Seq<char>) -> Option<HeaderValueModel> {
    match first_index_of(field_names(fields), name) {
        Some(i) => Some(fields[i].1),
        None => None,
    }
}

/// `fields` after setting `name` to `value`: the first field of that name is
/// replaced where it stands, and without one a new field is added at the end.
pub open spec fn with_field(fields: Fields, name: Seq<char>, value: HeaderValueModel) -> Fields {
    match first_index_of(field_names(fields), name) {
        Some(i) => fields.update(i, (name, value)),
        None => fields.push((name, value)),
    }
}

/// The fields that a vector of pairs stands for.
pub open spec fn fields_view(fields: Seq<(String, HeaderValue)>) -> Fields {
    Seq::new(fields.len(), |i: int| (fields[i].0@, fields[i].1@))
}

/// After a field is set, its name gives the new value.
pub proof fn lemma_with_field_value(fields: Fields, name: Seq<char>, value: HeaderValueModel)
    ensures
        field_value(with_field(fields, name, value), name) == Some(value),
{
    let names = field_names(fields);
    let after = with_field(fields, name, value);
    if exists|k: int| 0 <= k < names.len() && names[k] == name {
        lemma_first_index_exists(names, name);
        let i = first_index_of(names, name)->0;
        assert forall|j: int| 0 <= j < i implies field_names(after)[j] != name by {
            assert(names[j] != name);
        }
        lemma_first_index_unique(field_names(after), name, i);
    } else {
        let n = fields.len() as int;
        assert forall|j: int| 0 <= j < n implies field_names(after)[j] != name by {
            assert(names[j] == field_names(after)[j]);
        }
        lemma_first_index_unique(field_names(after), name, n);
    }
}

/// An ordered list of header fields.
#[derive(Debug)]
pub struct Headers {
    fields: Vec<(String, HeaderValue)>,
}

impl View for Headers {
    type V = Fields;

    closed spec fn view(&self) -> Fields {
        fields_view(self.fields@)
    }
}

impl Headers {
    /// An empty list.
    pub fn new() -> (headers: Headers)
        ensures
            headers@ == Seq::<(Seq<char>, HeaderValueModel)>::empty(),
    {
        let headers = Headers { fields: Vec::new() };
        assert(headers@ =~= Seq::<(Seq<char>, HeaderValueModel)>::empty());
        headers
    }

    /// The number of fields.
    pub fn len(&self) -> (n: usize)
        ensures
            n == self@.len(),
    {
        self.fields.len()
    }

    fn position(&self, name: &String) -> (found: Option<usize>)
        ensures
            match found {
                Some(i) => i < self@.len() && first_index_of(field_names(self@), name@) == Some(
                    i as int,
                ),
                None => first_index_of(field_names(self@), name@) is None,
            },
    {
        let ghost names = field_names(self@);
        let mut i: usize = 0;
        while i < self.fields.len()
            invariant
                i <= self.fields@.len(),
                names == field_names(self@),
                names.len() == self.fields@.len(),
                forall|j: int| 0 <= j < i ==> names[j] != name@,
            decreases self.fields@.len() - i,
        {
            if self.fields[i].0 == *name {
                proof {
                    assert(names[i as int] == name@);
                    lemma_first_index_unique(names, name@, i as int);
                }
                return Some(i);
            }
            i = i + 1;
        }
        proof {
            lemma_first_index_absent(names, name@);
        }
        None
    }

    /// Sets the field `name` to `value`, in place of the first field of that
    /// name or, without one, at the end of the list.
    pub fn set(&mut self, name: String, value: HeaderValue)
        ensures
            final(self)@ == with_field(old(self)@, name@, value@),
    {
        let ghost before = self@;
        match self.position(&name) {
            Some(i) => {
                self.fields.set(i, (name, value));
                assert(self@ =~= before.update(i as int, (name@, value@)));
            },
            None => {
                self.fields.push((name, value));
                assert(self@ =~= before.push((name@, value@)));
            },
        }
    }

    /// The value of the first field named `name`, if there is one.
    pub fn get(&self, name: &str) -> (value: Option<&HeaderValue>)
        ensures
            match value {
                Some(v) => field_value(self@, name@) == Some(v@),
                None => field_value(self@, name@) is None,
            },
    {
        let owned = name.to_owned();
        match self.position(&owned) {
            Some(i) => Some(&self.fields[i].1),
            None => None,
        }
    }

    /// Name and value of field `i`.
    pub fn field(&self, i: usize) -> (pair: (&String, &HeaderValue))
        requires
            i < self@.len(),
        ensures
            pair.0@ == self@[i as int].0,
            pair.1@ == self@[i as int].1,
    {
        (&self.fields[i].0, &self.fields[i].1)
    }
}

/// The fields that every response starts with: the time of the request, the
/// configured content type and the server's name, in this order.
pub open spec fn default_fields(date: HttpDate, content_type: Seq<char>, server: Seq<char>) -> Fields {
    seq![
        ("Date"@, HeaderValueModel::Date(date)),
        ("Content-Type"@, HeaderValueModel::Text(content_type)),
        ("Server"@, HeaderValueModel::Text(server)),
    ]
}

/// The default fields hold the date, the content type and the server's name
/// under their names.
pub proof fn lemma_default_fields_present(date: HttpDate, content_type: Seq<char>, server: Seq<char>)
    ensures
        field_value(default_fields(date, content_type, server), "Date"@) == Some(
            HeaderValueModel::Date(date),
        ),
        field_value(default_fields(date, content_type, server), "Content-Type"@) == Some(
            HeaderValueModel::Text(content_type),
        ),
        field_value(default_fields(date, content_type, server), "Server"@) == Some(
            HeaderValueModel::Text(server),
        ),
{
    reveal_strlit("Date");
    reveal_strlit("Content-Type");
    reveal_strlit("Server");
    let fields = default_fields(date, content_type, server);
    let names = field_names(fields);
    assert(names[0] == "Date"@);
    assert(names[1] == "Content-Type"@);
    assert(names[2] == "Server"@);
    assert(names[0].len() == 4 && names[1].len() == 12 && names[2].len() == 6);
    lemma_first_index_unique(names, "Date"@, 0);
    lemma_first_index_unique(names, "Content-Type"@, 1);
    lemma_first_index_unique(names, "Server"@, 2);
}

/// The headers that every response starts with.
pub fn default_headers(date: HttpDate, content_type: &String, server: &String) -> (headers: Headers)
    ensures
        headers@ == default_fields(date, content_type@, server@),
{
    proof {
        reveal_strlit("Date");
        reveal_strlit("Content-Type");
        reveal_strlit("Server");
    }
    let mut headers = Headers::new();
    let ghost empty = headers@;
    proof {
        lemma_first_index_absent(field_names(empty), "Date"@);
    }
    headers.set("Date".to_owned(), HeaderValue::Date(date));
    let ghost one = headers@;
    proof {
        assert(one =~= seq![("Date"@, HeaderValueModel::Date(date))]);
        assert forall|j: int| 0 <= j < field_names(one).len() implies field_names(one)[j]
            != "Content-Type"@ by {
            assert(field_names(one)[j].len() == 4);
        }
        lemma_first_index_absent(field_names(one), "Content-Type"@);
    }
    headers.set("Content-Type".to_owned(), HeaderValue::Text(content_type.clone()));
    let ghost two = headers@;
    proof {
        assert forall|j: int| 0 <= j < field_names(two).len() implies field_names(two)[j]
            != "Server"@ by {
            assert(field_names(two)[j].len() == 4 || field_names(two)[j].len() == 12);
        }
        lemma_first_index_absent(field_names(two), "Server"@);
    }
    headers.set("Server".to_owned(), HeaderValue::Text(server.clone()));
    assert(headers@ =~= default_fields(date, content_type@, server@));
    headers
}

} // verus!
