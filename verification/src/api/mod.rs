pub mod edm;
pub mod member;
pub mod si;

use vstd::prelude::*;

verus! {

/// What a collection that walks the pages of a search does next.
#[derive(Clone, Copy, Debug, PartialEq, Eq, Hash)]
pub enum PageStep {
    /// The collection is finished.
    Finished,
    /// The record at this index of the page is to be fetched and collected.
    Fetch(usize),
    /// The page has nothing more to fetch: ask for the next one.
    NextPage,
}

/// A value that is either a result or an error, each written as it is.
#[derive(Clone, Debug, PartialEq, Eq, Hash)]
pub enum FlatResult<T, E> {
    Success(T),
    Failure(E),
}

/// The paging details of a paged response.
#[derive(Clone, Debug, PartialEq, Eq, Hash)]
pub struct PagingInfo {
    pub format: Option<i32>,
    pub take: i32,
    pub total: i32,
    pub global_total: i32,
    pub status_counts: Vec<StatusCount>,
    pub global_status_counts: Vec<StatusCount>,
}

#[derive(Clone, Debug, PartialEq, Eq, Hash)]
pub struct StatusCount {
    pub status_id: i32,
    pub count: i32,
}

/// A problem report from a service.
#[derive(Clone, Debug, PartialEq, Eq, Hash)]
pub struct DetailedErrorResponse {
    pub kind: Option<String>,
    pub title: Option<String>,
    pub status: Option<u32>,
    pub detail: Option<String>,
    pub instance: Option<String>,
    pub additional_prop1: Option<String>,
    pub additional_prop2: Option<String>,
    pub additional_prop3: Option<String>,
}

/// A value with the links that came with it.
#[derive(Clone, Debug, PartialEq, Eq, Hash)]
pub struct ValueWithLinksResponse<T> {
    pub value: T,
    pub links: Vec<LinkResponse>,
}

#[derive(Clone, Debug, PartialEq, Eq, Hash)]
pub struct LinkResponse {
    pub rel: String,
    pub href: String,
    pub method: String,
}

/// A paged response, with its payload kept as JSON text.
#[derive(Clone, Debug, PartialEq, Eq, Hash)]
pub struct PagedResponse {
    pub paging_info: Option<PagingInfo>,
    pub status_code: i32,
    pub success: bool,
    pub errors: Vec<String>,
    pub response: Option<String>,
}

impl PagedResponse {
    /// Whether the payload can be used: the service reports success, no
    /// errors, and a payload is present. Otherwise the response is the error.
    pub open spec fn spec_accepted(&self) -> bool {
        self.success && self.errors@.len() == 0 && self.response is Some
    }

    pub fn accepted(&self) -> (r: bool)
        ensures
            r == self.spec_accepted(),
    {
        self.success && self.errors.len() == 0 && self.response.is_some()
    }
}

/// A list of values with links, as some services answer.
#[derive(Clone, Debug, PartialEq, Eq, Hash)]
pub struct ItemsResponse {
    pub items: Vec<ValueWithLinksResponse<String>>,
    pub total_results: i32,
    pub result_context: Option<String>,
    pub items_per_page: Option<i32>,
    pub links: Vec<LinkResponse>,
    pub result_type: Option<String>,
}

/// The answer of a service, with each payload kept as JSON text.
#[derive(Clone, Debug, PartialEq, Eq, Hash)]
pub enum ApiResponse {
    PagedResponse(PagedResponse),
    ValueWithLinksResponse(ValueWithLinksResponse<String>),
    ItemsResponse(ItemsResponse),
}

/// Why a service's answer cannot be used.
#[derive(Clone, Debug, PartialEq, Eq, Hash)]
pub enum ApiError {
    /// A paged answer that reports failure, errors, or no payload.
    PagedError(PagedResponse),
    /// The service's own report of a problem.
    DetailedErrorResponse(DetailedErrorResponse),
    /// A problem described in words.
    Message(String),
    /// A problem with nothing to say.
    Empty,
}

/// JSON texts joined by commas.
pub open spec fn comma_joined(texts: Seq<Seq<char>>) -> Seq<char>
    decreases texts.len(),
{
    if texts.len() == 0 {
        Seq::empty()
    } else if texts.len() == 1 {
        texts[0]
    } else {
        comma_joined(texts.drop_last()) + ","@ + texts.last()
    }
}

/// The JSON text of an array of the given JSON texts, written compactly.
pub open spec fn json_array(texts: Seq<Seq<char>>) -> Seq<char> {
    "["@ + comma_joined(texts) + "]"@
}

/// The payload texts of the items.
pub open spec fn item_texts(items: Seq<ValueWithLinksResponse<String>>) -> Seq<Seq<char>> {
    items.map_values(|i: ValueWithLinksResponse<String>| i.value@)
}

impl ApiResponse {
    /// The JSON text of the answer's payload, to be read as the value asked
    /// for: a paged answer's payload where it is accepted (else the answer
    /// is the error), a value's text, or the items' values as an array.
    pub fn try_unwrap(self) -> (r: Result<String, ApiError>)
        ensures
            match self {
                ApiResponse::PagedResponse(p) => if p.spec_accepted() {
                    r matches Ok(t) && t@ == p.response->0@
                } else {
                    r == Err::<String, ApiError>(ApiError::PagedError(p))
                },
                ApiResponse::ValueWithLinksResponse(v) => r matches Ok(t) && t@ == v.value@,
                ApiResponse::ItemsResponse(i) => r matches Ok(t) && t@ == json_array(item_texts(i.items@)),
            },
    {
        match self {
            ApiResponse::PagedResponse(p) => {
                if !p.accepted() {
                    return Err(ApiError::PagedError(p));
                }
                match p.response {
                    Some(t) => Ok(t),
                    None => Err(ApiError::Empty),
                }
            },
            ApiResponse::ValueWithLinksResponse(v) => Ok(v.value),
            ApiResponse::ItemsResponse(i) => {
                proof {
                    reveal_strlit("[");
                    reveal_strlit("]");
                    reveal_strlit(",");
                }
                let mut body = String::new();
                let mut k: usize = 0;
                while k < i.items.len()
                    invariant
                        k <= i.items.len(),
                        body@ == comma_joined(item_texts(i.items@).take(k as int)),
                    decreases i.items.len() - k,
                {
                    let ghost texts = item_texts(i.items@);
                    assert(texts.take(k + 1).drop_last() =~= texts.take(k as int));
                    if k == 0 {
                        body = body.concat(i.items[k].value.as_str());
                        assert(body@ =~= comma_joined(texts.take(1)));
                    } else {
                        body = body.concat(",").concat(i.items[k].value.as_str());
                    }
                    k = k + 1;
                }
                assert(item_texts(i.items@).take(i.items.len() as int) =~= item_texts(i.items@));
                Ok(String::from_str("[").concat(body.as_str()).concat("]"))
            },
        }
    }
}

} // verus!
