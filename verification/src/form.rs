//! The body of a posted form, url-encoded or multipart.
//!
//! A request carries a form only if one of its rows is exactly one of the
//! two content types below. The body is what follows the first empty row.

use vstd::prelude::*;
use vstd::string::*;
use vstd::utf8::encode_utf8;
use crate::bindings::{regex_find, regex_search};
use crate::request::{ParseError, PostField, PostRequest, Request};
use crate::string_map::StringMap;
use crate::text::{
    contains, copy, copy_range, cut, cut_all, from_chars, has, remove_char, same, split,
    split_all, to_chars, views, without_char,
};

verus! {

/// The row that announces a url-encoded form.
pub const URLENCODED: &'static str = "Content-Type: application/x-www-form-urlencoded";

/// The row that announces a multipart form.
pub const MULTIPART: &'static str = "Content-Type: multipart/form-data";

/// The run of dashes by which a boundary row of a multipart body is known.
pub const DASHES: &'static str = "-----------------------------";

/// The regular expression whose first match in a boundary row is the
/// boundary's value.
pub const BOUNDARY_PATTERN: &'static str = r"\w*?([\d|\.]+)\w*?([\d{1,4}]+).*";

/// The regular expression whose first match in an attribute row is the
/// quoted value of the attribute.
pub const QUOTED_PATTERN: &'static str = r#""([^"].+)""#;

/// The encoding of a posted form.
#[derive(Debug, Clone, Copy, PartialEq, Eq, Structural)]
pub enum FormKind {
    UrlEncoded,
    Multipart,
    Absent,
}

/// What a row of a multipart body is taken for.
#[derive(Debug, Clone, Copy, PartialEq, Eq, Structural)]
pub enum RowKind {
    /// The row marks a boundary between parts.
    Boundary,
    /// The row names the uploaded file of the current part.
    FileName,
    /// The row names the field of the current part.
    Name,
    /// The row belongs to the payload of the current part.
    Payload,
    /// The row carries nothing that is kept.
    Skipped,
}

/// Where the scan of a multipart body stands.
pub struct ScanState {
    /// The value of the last boundary row; empty before the first.
    pub boundary: Seq<char>,
    /// The field name of the current part.
    pub name: Seq<char>,
    /// The file name of the current part.
    pub file_name: Seq<char>,
    /// The payload of the current part so far, each row followed by a line
    /// feed.
    pub data: Seq<u8>,
    /// The fields of the parts that are complete.
    pub fields: Map<Seq<char>, PostField>,
}

/// The scan of a multipart body, row by row.
#[derive(Debug)]
pub struct MultipartScanner {
    /// The value of the last boundary row; empty before the first.
    pub boundary: Vec<char>,
    /// The field name of the current part.
    pub name: Vec<char>,
    /// The file name of the current part.
    pub file_name: Vec<char>,
    /// The payload of the current part so far.
    pub data: Vec<u8>,
    /// The fields of the parts that are complete.
    pub fields: StringMap<PostRequest>,
}

impl View for MultipartScanner {
    type V = ScanState;

    open spec fn view(&self) -> ScanState {
        ScanState {
            boundary: self.boundary@,
            name: self.name@,
            file_name: self.file_name@,
            data: self.data@,
            fields: field_values(self.fields@),
        }
    }
}

/// The encoding that the rows of a request announce. Where both content
/// types occur, the form is read as url-encoded.
pub open spec fn form_kind(rows: Seq<Seq<char>>) -> FormKind {
    if rows.contains(URLENCODED@) {
        FormKind::UrlEncoded
    } else if rows.contains(MULTIPART@) {
        FormKind::Multipart
    } else {
        FormKind::Absent
    }
}

/// The place of the first empty row.
pub open spec fn first_empty(rows: Seq<Seq<char>>) -> Option<int>
    decreases rows.len(),
{
    if rows.len() == 0 {
        None
    } else if rows.first().len() == 0 {
        Some(0)
    } else {
        match first_empty(rows.drop_first()) {
            Some(i) => Some(i + 1),
            None => None,
        }
    }
}

/// What the fields of a map hold.
pub open spec fn field_values(m: Map<Seq<char>, PostRequest>) -> Map<Seq<char>, PostField> {
    m.map_values(|p: PostRequest| p@)
}

/// The text of a match, if there is one.
pub open spec fn text_of(found: Option<String>) -> Option<Seq<char>> {
    match found {
        Some(s) => Some(s@),
        None => None,
    }
}

/// The fields that the pairs of a url-encoded body define: each pair
/// `key=value` gives the field `key` the bytes of `value` as they stand.
/// A later pair overrides an earlier one, and a pair without `'='` is an
/// error.
pub open spec fn form_fields(pairs: Seq<Seq<char>>) -> Result<Map<Seq<char>, PostField>, ParseError>
    decreases pairs.len(),
{
    if pairs.len() == 0 {
        Ok(Map::empty())
    } else {
        match form_fields(pairs.drop_last()) {
            Ok(before) => {
                let kv = split(pairs.last(), "="@);
                if kv.len() > 1 {
                    Ok(
                        before.insert(
                            kv[0],
                            PostField {
                                name: kv[0],
                                file_name: Seq::empty(),
                                data: encode_utf8(kv[1]),
                            },
                        ),
                    )
                } else {
                    Err(ParseError::MalformedPair)
                }
            },
            Err(e) => Err(e),
        }
    }
}

/// The fields of a url-encoded body: every row is cut at each `'&'` into
/// pairs.
pub open spec fn urlencoded_fields(body: Seq<Seq<char>>) -> Result<
    Map<Seq<char>, PostField>,
    ParseError,
> {
    form_fields(split_all(body, "&"@))
}

/// What a row of a multipart body is taken for. Before the first boundary
/// (`inside` is false) only a boundary row counts.
pub open spec fn row_kind(inside: bool, row: Seq<char>) -> RowKind {
    if contains(row, DASHES@) {
        RowKind::Boundary
    } else if !inside {
        RowKind::Skipped
    } else if contains(row, "Content-Disposition"@) {
        RowKind::Skipped
    } else if contains(row, "filename="@) {
        RowKind::FileName
    } else if contains(row, "name="@) {
        RowKind::Name
    } else if contains(row, "Content-Type:"@) {
        RowKind::Skipped
    } else {
        RowKind::Payload
    }
}

/// The regular expression that a row of the given kind is searched with.
pub open spec fn pattern_of(kind: RowKind) -> Option<Seq<char>> {
    match kind {
        RowKind::Boundary => Some(BOUNDARY_PATTERN@),
        RowKind::FileName => Some(QUOTED_PATTERN@),
        RowKind::Name => Some(QUOTED_PATTERN@),
        RowKind::Payload => None,
        RowKind::Skipped => None,
    }
}

impl ScanState {
    /// The state before the first row.
    pub open spec fn start() -> ScanState {
        ScanState {
            boundary: Seq::empty(),
            name: Seq::empty(),
            file_name: Seq::empty(),
            data: Seq::empty(),
            fields: Map::empty(),
        }
    }

    /// Whether a boundary row has been seen.
    pub open spec fn inside(self) -> bool {
        self.boundary.len() > 0
    }

    /// Completes the current part: its payload, less the first and the last
    /// byte, becomes the field of its name, and a new part begins.
    pub open spec fn flush(self) -> Result<ScanState, ParseError> {
        if self.data.len() < 2 {
            Err(ParseError::ShortPayload)
        } else {
            Ok(
                ScanState {
                    boundary: self.boundary,
                    name: Seq::empty(),
                    file_name: Seq::empty(),
                    data: Seq::empty(),
                    fields: self.fields.insert(
                        self.name,
                        PostField {
                            name: self.name,
                            file_name: self.file_name,
                            data: self.data.subrange(1, self.data.len() - 1),
                        },
                    ),
                },
            )
        }
    }

    /// The state after `row`, where `found` is the first match in `row` of
    /// the pattern for the row's kind.
    ///
    /// A boundary row whose value repeats the last boundary completes the
    /// current part; any other value is only recorded. An attribute row
    /// sets the name or the file name to the match without its quotes. A
    /// payload row is added to the payload with a line feed after it.
    pub open spec fn step(self, row: Seq<char>, found: Option<Seq<char>>) -> Result<
        ScanState,
        ParseError,
    > {
        match row_kind(self.inside(), row) {
            RowKind::Boundary => match found {
                Some(value) => if value == self.boundary {
                    self.flush()
                } else {
                    Ok(ScanState { boundary: value, ..self })
                },
                None => Err(ParseError::MalformedMultipart),
            },
            RowKind::FileName => match found {
                Some(quoted) => Ok(ScanState { file_name: remove_char(quoted, '"'), ..self }),
                None => Err(ParseError::MalformedMultipart),
            },
            RowKind::Name => match found {
                Some(quoted) => Ok(ScanState { name: remove_char(quoted, '"'), ..self }),
                None => Err(ParseError::MalformedMultipart),
            },
            RowKind::Payload => Ok(
                ScanState { data: self.data + encode_utf8(row) + seq![10u8], ..self },
            ),
            RowKind::Skipped => Ok(self),
        }
    }

    /// What the search of `row` with the pattern for the row's kind gives:
    /// nothing where the pattern is refused, and else the first match, if
    /// there is one. A row whose kind has no pattern is not searched.
    pub open spec fn searched(self, row: Seq<char>) -> Option<Option<Seq<char>>> {
        match pattern_of(row_kind(self.inside(), row)) {
            Some(pattern) => regex_search(pattern, row),
            None => Some(None),
        }
    }

    /// The state after all of `rows`. A pattern that is refused ends the
    /// scan with `ParseError::Pattern`.
    pub open spec fn scan(self, rows: Seq<Seq<char>>) -> Result<ScanState, ParseError>
        decreases rows.len(),
    {
        if rows.len() == 0 {
            Ok(self)
        } else {
            match self.searched(rows.first()) {
                Some(found) => match self.step(rows.first(), found) {
                    Ok(next) => next.scan(rows.drop_first()),
                    Err(e) => Err(e),
                },
                None => Err(ParseError::Pattern),
            }
        }
    }
}

/// The fields of a multipart body: the parts completed during the scan and
/// the part that is open at its end.
pub open spec fn multipart_fields(body: Seq<Seq<char>>) -> Result<
    Map<Seq<char>, PostField>,
    ParseError,
> {
    match ScanState::start().scan(body) {
        Ok(last) => match last.flush() {
            Ok(done) => Ok(done.fields),
            Err(e) => Err(e),
        },
        Err(e) => Err(e),
    }
}

/// The fields of the form that a request posts.
pub open spec fn post_of(rows: Seq<Seq<char>>) -> Result<Map<Seq<char>, PostField>, ParseError> {
    match form_kind(rows) {
        FormKind::Absent => Ok(Map::empty()),
        FormKind::UrlEncoded => match first_empty(rows) {
            Some(i) => urlencoded_fields(rows.skip(i + 1)),
            None => Err(ParseError::MissingSeparator),
        },
        FormKind::Multipart => match first_empty(rows) {
            Some(i) => multipart_fields(rows.skip(i + 1)),
            None => Err(ParseError::MissingSeparator),
        },
    }
}

/// A request that announces no form posts no field.
pub proof fn lemma_no_form_no_fields(rows: Seq<Seq<char>>)
    requires
        !rows.contains(URLENCODED@),
        !rows.contains(MULTIPART@),
    ensures
        post_of(rows) == Ok::<Map<Seq<char>, PostField>, ParseError>(Map::empty()),
{
}

/// The first empty row is in range, and the rows before it are not empty.
pub proof fn lemma_first_empty(rows: Seq<Seq<char>>)
    ensures
        match first_empty(rows) {
            Some(i) => 0 <= i < rows.len() && rows[i].len() == 0 && forall|j: int|
                0 <= j < i ==> rows[j].len() > 0,
            None => forall|j: int| 0 <= j < rows.len() ==> rows[j].len() > 0,
        },
    decreases rows.len(),
{
    if rows.len() > 0 && rows.first().len() != 0 {
        lemma_first_empty(rows.drop_first());
        match first_empty(rows.drop_first()) {
            Some(i) => {
                assert forall|j: int| 0 <= j < i + 1 implies rows[j].len() > 0 by {
                    if j > 0 {
                        assert(rows.drop_first()[j - 1] == rows[j]);
                    }
                }
            },
            None => {
                assert forall|j: int| 0 <= j < rows.len() implies rows[j].len() > 0 by {
                    if j > 0 {
                        assert(rows.drop_first()[j - 1] == rows[j]);
                    }
                }
            },
        }
    }
}

/// The only error of a url-encoded body is a pair without `'='`.
pub proof fn lemma_form_fields_only_error(pairs: Seq<Seq<char>>)
    ensures
        form_fields(pairs) matches Err(e) ==> e == ParseError::MalformedPair,
    decreases pairs.len(),
{
    if pairs.len() > 0 {
        lemma_form_fields_only_error(pairs.drop_last());
    }
}

/// A pair without `'='` makes the whole body an error, wherever it stands.
pub proof fn lemma_form_fields_error(pairs: Seq<Seq<char>>, i: int)
    requires
        0 <= i < pairs.len(),
        split(pairs[i], "="@).len() <= 1,
    ensures
        form_fields(pairs) == Err::<Map<Seq<char>, PostField>, ParseError>(
            ParseError::MalformedPair,
        ),
    decreases pairs.len(),
{
    lemma_form_fields_only_error(pairs.drop_last());
    if i < pairs.len() - 1 {
        lemma_form_fields_error(pairs.drop_last(), i);
    }
}

impl Request {
    /// The fields of the form that the request posts.
    pub fn get_post_request(strings: &Vec<Vec<char>>) -> (r: Result<
        StringMap<PostRequest>,
        ParseError,
    >)
        ensures
            match post_of(views(strings@)) {
                Ok(fields) => r matches Ok(m) && field_values(m@) == fields,
                Err(e) => r matches Err(x) && x == e,
            },
    {
        let kind = kind_of_form(strings);
        if kind == FormKind::Absent {
            let none: StringMap<PostRequest> = StringMap::new();
            assert(field_values(none@) =~= Map::<Seq<char>, PostField>::empty());
            return Ok(none);
        }
        let first = match separator(strings) {
            Some(i) => i + 1,
            None => {
                return Err(ParseError::MissingSeparator);
            },
        };
        let ghost body = views(strings@).skip(first as int);
        if kind == FormKind::UrlEncoded {
            proof {
                reveal_strlit("&");
            }
            let pairs = cut_all(strings, first, "&");
            return fields_of_pairs(&pairs);
        }
        let mut scanner = MultipartScanner::new();
        let mut i: usize = first;
        assert(body.skip(0) =~= body);
        while i < strings.len()
            invariant
                first <= i <= strings.len(),
                body == views(strings@).skip(first as int),
                form_kind(views(strings@)) == FormKind::Multipart,
                first_empty(views(strings@)) == Some(first - 1),
                ScanState::start().scan(body) == scanner@.scan(body.skip(i - first)),
            decreases strings.len() - i,
        {
            let row = strings[i].as_slice();
            proof {
                assert(body.skip(i - first).first() == row@);
                assert(body.skip(i - first).drop_first() =~= body.skip(i + 1 - first));
            }
            let found = match pattern_for(scanner.kind(row)) {
                Some(pattern) => match regex_find(pattern, from_chars(row).as_str()) {
                    Ok(found) => found,
                    Err(_) => {
                        return Err(ParseError::Pattern);
                    },
                },
                None => None,
            };
            assert(scanner@.searched(row@) == Some(text_of(found)));
            match scanner.feed(row, found) {
                Ok(next) => {
                    scanner = next;
                },
                Err(e) => {
                    return Err(e);
                },
            }
            i += 1;
        }
        scanner.finish()
    }
}

/// The encoding of the form that the rows announce.
pub fn kind_of_form(rows: &Vec<Vec<char>>) -> (k: FormKind)
    ensures
        k == form_kind(views(rows@)),
{
    if has_row(rows, URLENCODED) {
        FormKind::UrlEncoded
    } else if has_row(rows, MULTIPART) {
        FormKind::Multipart
    } else {
        FormKind::Absent
    }
}

/// Whether one of the rows reads exactly as `row`.
fn has_row(rows: &Vec<Vec<char>>, row: &str) -> (b: bool)
    ensures
        b == views(rows@).contains(row@),
{
    let wanted = to_chars(row);
    let mut i: usize = 0;
    while i < rows.len()
        invariant
            i <= rows.len(),
            wanted@ == row@,
            forall|j: int| 0 <= j < i ==> views(rows@)[j] != row@,
        decreases rows.len() - i,
    {
        if same(rows[i].as_slice(), wanted.as_slice()) {
            assert(views(rows@)[i as int] == row@);
            return true;
        }
        i += 1;
    }
    false
}

/// The place of the first empty row.
pub fn separator(rows: &Vec<Vec<char>>) -> (r: Option<usize>)
    ensures
        match r {
            Some(i) => first_empty(views(rows@)) == Some(i as int) && i < rows.len(),
            None => first_empty(views(rows@)) is None,
        },
{
    let ghost all = views(rows@);
    let mut i: usize = 0;
    proof {
        lemma_first_empty(all);
    }
    while i < rows.len()
        invariant
            i <= rows.len(),
            all == views(rows@),
            forall|j: int| 0 <= j < i ==> all[j].len() > 0,
        decreases rows.len() - i,
    {
        if rows[i].len() == 0 {
            proof {
                lemma_first_empty(all);
                assert(all[i as int].len() == 0);
            }
            return Some(i);
        }
        i += 1;
    }
    proof {
        lemma_first_empty(all);
    }
    None
}

/// The fields that the pairs of a url-encoded body define.
pub fn fields_of_pairs(pairs: &Vec<Vec<char>>) -> (r: Result<StringMap<PostRequest>, ParseError>)
    ensures
        match form_fields(views(pairs@)) {
            Ok(fields) => r matches Ok(m) && field_values(m@) == fields,
            Err(e) => r matches Err(x) && x == e,
        },
{
    proof {
        reveal_strlit("=");
    }
    let ghost all = views(pairs@);
    let mut fields: StringMap<PostRequest> = StringMap::new();
    let mut i: usize = 0;
    proof {
        assert(all.take(0) =~= Seq::<Seq<char>>::empty());
        assert(field_values(fields@) =~= Map::<Seq<char>, PostField>::empty());
    }
    while i < pairs.len()
        invariant
            i <= pairs.len(),
            all == views(pairs@),
            "="@.len() == 1,
            form_fields(all.take(i as int)) == Ok::<Map<Seq<char>, PostField>, ParseError>(
                field_values(fields@),
            ),
        decreases pairs.len() - i,
    {
        let kv = cut(pairs[i].as_slice(), "=");
        proof {
            assert(all.take(i + 1).drop_last() =~= all.take(i as int));
            assert(all.take(i + 1).last() == all[i as int]);
        }
        if kv.len() > 1 {
            let field = PostRequest::new(
                from_chars(kv[0].as_slice()),
                String::new(),
                utf8_bytes(kv[1].as_slice()),
            );
            let ghost before = fields@;
            fields.insert_text(copy(kv[0].as_slice()), field);
            assert(field_values(before.insert(field.name@, field)) =~= field_values(
                before,
            ).insert(field.name@, field@));
        } else {
            proof {
                lemma_form_fields_error(all, i as int);
            }
            return Err(ParseError::MalformedPair);
        }
        i += 1;
    }
    assert(all.take(i as int) =~= all);
    Ok(fields)
}

/// The UTF-8 bytes of a text.
pub fn utf8_bytes(s: &[char]) -> (r: Vec<u8>)
    ensures
        r@ == encode_utf8(s@),
{
    let owned = from_chars(s);
    owned.as_str().as_bytes_vec()
}

/// What a row of a multipart body is taken for.
pub fn classify(inside: bool, row: &[char]) -> (k: RowKind)
    ensures
        k == row_kind(inside, row@),
{
    if has(row, to_chars(DASHES).as_slice()) {
        RowKind::Boundary
    } else if !inside {
        RowKind::Skipped
    } else if has(row, to_chars("Content-Disposition").as_slice()) {
        RowKind::Skipped
    } else if has(row, to_chars("filename=").as_slice()) {
        RowKind::FileName
    } else if has(row, to_chars("name=").as_slice()) {
        RowKind::Name
    } else if has(row, to_chars("Content-Type:").as_slice()) {
        RowKind::Skipped
    } else {
        RowKind::Payload
    }
}

/// The regular expression that a row of the given kind is searched with.
pub fn pattern_for(kind: RowKind) -> (r: Option<&'static str>)
    ensures
        match r {
            Some(p) => pattern_of(kind) == Some(p@),
            None => pattern_of(kind) is None,
        },
{
    match kind {
        RowKind::Boundary => Some(BOUNDARY_PATTERN),
        RowKind::FileName => Some(QUOTED_PATTERN),
        RowKind::Name => Some(QUOTED_PATTERN),
        RowKind::Payload => None,
        RowKind::Skipped => None,
    }
}

impl MultipartScanner {
    /// A scanner that has seen no row.
    pub fn new() -> (r: Self)
        ensures
            r@ == ScanState::start(),
    {
        let r = MultipartScanner {
            boundary: Vec::new(),
            name: Vec::new(),
            file_name: Vec::new(),
            data: Vec::new(),
            fields: StringMap::new(),
        };
        assert(field_values(r.fields@) =~= Map::<Seq<char>, PostField>::empty());
        r
    }

    /// What the next row `row` is taken for.
    pub fn kind(&self, row: &[char]) -> (k: RowKind)
        ensures
            k == row_kind(self@.inside(), row@),
    {
        classify(self.boundary.len() > 0, row)
    }

    /// Completes the current part.
    pub fn flush(self) -> (r: Result<Self, ParseError>)
        ensures
            match self@.flush() {
                Ok(next) => r matches Ok(s) && s@ == next,
                Err(e) => r matches Err(x) && x == e,
            },
    {
        if self.data.len() < 2 {
            return Err(ParseError::ShortPayload);
        }
        let field = PostRequest::new(
            from_chars(self.name.as_slice()),
            from_chars(self.file_name.as_slice()),
            copy_range(self.data.as_slice(), 1, self.data.len() - 1),
        );
        let ghost before = self.fields@;
        let mut fields = self.fields;
        fields.insert_text(self.name, field);
        assert(field_values(before.insert(field.name@, field)) =~= field_values(before).insert(
            field.name@,
            field@,
        ));
        Ok(
            MultipartScanner {
                boundary: self.boundary,
                name: Vec::new(),
                file_name: Vec::new(),
                data: Vec::new(),
                fields,
            },
        )
    }

    /// Takes in the next row. `found` is the first match in the row of the
    /// pattern for the row's kind; it is not looked at where the kind has
    /// no pattern.
    pub fn feed(self, row: &[char], found: Option<String>) -> (r: Result<Self, ParseError>)
        ensures
            match self@.step(row@, text_of(found)) {
                Ok(next) => r matches Ok(s) && s@ == next,
                Err(e) => r matches Err(x) && x == e,
            },
    {
        match self.kind(row) {
            RowKind::Boundary => match found {
                Some(value) => {
                    let value = to_chars(value.as_str());
                    if same(value.as_slice(), self.boundary.as_slice()) {
                        self.flush()
                    } else {
                        let mut next = self;
                        next.boundary = value;
                        Ok(next)
                    }
                },
                None => Err(ParseError::MalformedMultipart),
            },
            RowKind::FileName => match found {
                Some(quoted) => {
                    let mut next = self;
                    next.file_name = without_char(to_chars(quoted.as_str()).as_slice(), '"');
                    Ok(next)
                },
                None => Err(ParseError::MalformedMultipart),
            },
            RowKind::Name => match found {
                Some(quoted) => {
                    let mut next = self;
                    next.name = without_char(to_chars(quoted.as_str()).as_slice(), '"');
                    Ok(next)
                },
                None => Err(ParseError::MalformedMultipart),
            },
            RowKind::Payload => {
                let mut next = self;
                let mut bytes = utf8_bytes(row);
                next.data.append(&mut bytes);
                next.data.push(10u8);
                assert(next.data@ =~= self.data@ + encode_utf8(row@) + seq![10u8]);
                Ok(next)
            },
            RowKind::Skipped => Ok(self),
        }
    }

    /// Completes the last part and hands out the fields.
    pub fn finish(self) -> (r: Result<StringMap<PostRequest>, ParseError>)
        ensures
            match self@.flush() {
                Ok(done) => r matches Ok(m) && field_values(m@) == done.fields,
                Err(e) => r matches Err(x) && x == e,
            },
    {
        match self.flush() {
            Ok(done) => Ok(done.fields),
            Err(e) => Err(e),
        }
    }
}

} // verus!
