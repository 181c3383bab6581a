//! Suwayomi: the settings of a server, how its library is searched, which
//! way a request authenticates, and the addresses of its pages.
use vstd::prelude::*;
use vstd::string::StringSliceAdditionalSpecFns;
use vstd::utf8::*;

use crate::model::FilterValue;
use crate::primitives::{base64_encode, base64_standard_encode};
use crate::text::{
    chars_of, opt_str_view, opt_view, push_str, str_eq, string_of, trim_end_char,
    trim_end_char_chars,
};

verus! {

/// The id of the check filter that picks a category.
pub const CATEGORY_FILTER_ID: &'static str = "CATEGORY";

// ---------------------------------------------------------------------------
// Settings
// ---------------------------------------------------------------------------

/// The server's address as set, without trailing slashes; none when unset
/// ("Missing baseUrl").
pub fn base_url(setting: Option<&str>) -> (r: Option<String>)
    ensures
        opt_view(r) == match opt_str_view(setting) {
            Some(s) => Some(trim_end_char(s, '/')),
            None => None,
        },
{
    match setting {
        Some(s) => Some(string_of(&trim_end_char_chars(&chars_of(s), '/'))),
        None => None,
    }
}

/// How requests authenticate: the setting, or `auto` when it is unset or
/// empty.
pub fn auth_mode(setting: Option<&str>) -> (r: String)
    ensures
        r@ == match opt_str_view(setting) {
            Some(s) => if s.len() > 0 { s } else { "auto"@ },
            None => "auto"@,
        },
{
    match setting {
        Some(s) => if !s.is_empty() { string_of(&chars_of(s)) } else { string_of(&chars_of("auto")) },
        None => string_of(&chars_of("auto")),
    }
}

/// The credentials: both set, and a user name that is not empty.
pub fn credentials(user: Option<&str>, pass: Option<&str>) -> (r: Option<(String, String)>)
    ensures
        match r {
            Some((u, p)) => user is Some && pass is Some && user->0@.len() > 0 && u@ == user->0@ && p@ == pass->0@,
            None => user is None || pass is None || user->0@.len() == 0,
        },
{
    match (user, pass) {
        (Some(u), Some(p)) => if u.is_empty() {
            None
        } else {
            Some((string_of(&chars_of(u)), string_of(&chars_of(p))))
        },
        _ => None,
    }
}

// ---------------------------------------------------------------------------
// Authentication
// ---------------------------------------------------------------------------

/// How a query is sent.
#[derive(Debug, Clone, Copy, PartialEq, Eq, Structural)]
pub enum AuthPlan {
    /// Without credentials.
    Plain,
    /// With basic authentication, where there are credentials.
    Basic,
    /// After a form login, without credentials.
    LoginThenPlain,
    /// With basic authentication; if that fails, again after a form login.
    BasicThenLoginRetry,
}

/// How a query is sent under an authentication mode: `none`, `basic_auth`,
/// `simple_login`, and anything else tries both.
pub open spec fn auth_plan_spec(mode: Seq<char>) -> AuthPlan {
    if mode == "none"@ {
        AuthPlan::Plain
    } else if mode == "basic_auth"@ {
        AuthPlan::Basic
    } else if mode == "simple_login"@ {
        AuthPlan::LoginThenPlain
    } else {
        AuthPlan::BasicThenLoginRetry
    }
}

/// How a query is sent (`graphql_request`).
pub fn auth_plan(mode: &str) -> (r: AuthPlan)
    ensures
        r == auth_plan_spec(mode@),
{
    if str_eq(mode, "none") {
        AuthPlan::Plain
    } else if str_eq(mode, "basic_auth") {
        AuthPlan::Basic
    } else if str_eq(mode, "simple_login") {
        AuthPlan::LoginThenPlain
    } else {
        AuthPlan::BasicThenLoginRetry
    }
}

/// How a login is checked.
#[derive(Debug, Clone, Copy, PartialEq, Eq, Structural)]
pub enum LoginPlan {
    /// Nothing to check: accepted.
    Accept,
    /// A query with basic authentication must answer 200.
    Basic,
    /// The login form must answer 200.
    Form,
    /// Either, basic authentication first.
    BasicThenForm,
}

/// How a login is checked under an authentication mode
/// (`handle_basic_login`).
pub fn login_plan(mode: &str) -> (r: LoginPlan)
    ensures
        r == if mode@ == "none"@ {
            LoginPlan::Accept
        } else if mode@ == "basic_auth"@ {
            LoginPlan::Basic
        } else if mode@ == "simple_login"@ {
            LoginPlan::Form
        } else {
            LoginPlan::BasicThenForm
        },
{
    if str_eq(mode, "none") {
        LoginPlan::Accept
    } else if str_eq(mode, "basic_auth") {
        LoginPlan::Basic
    } else if str_eq(mode, "simple_login") {
        LoginPlan::Form
    } else {
        LoginPlan::BasicThenForm
    }
}

/// The outcome of a login from the statuses of the attempts made, in the
/// plan's order (`None` where an attempt could not be sent): accepted when
/// the plan needs nothing or an attempt answered 200.
pub fn login_accepted(plan: LoginPlan, basic: Option<u16>, form: Option<u16>) -> (r: bool)
    ensures
        r == match plan {
            LoginPlan::Accept => true,
            LoginPlan::Basic => basic == Some(200u16),
            LoginPlan::Form => form == Some(200u16),
            LoginPlan::BasicThenForm => basic == Some(200u16) || form == Some(200u16),
        },
{
    match plan {
        LoginPlan::Accept => true,
        LoginPlan::Basic => basic == Some(200u16),
        LoginPlan::Form => form == Some(200u16),
        LoginPlan::BasicThenForm => basic == Some(200u16) || form == Some(200u16),
    }
}

/// The `Authorization` header of basic authentication: `Basic` and the
/// standard base64 of `user:pass`.
pub fn basic_auth_header(user: &str, pass: &str) -> (r: String)
    ensures
        r@ == "Basic "@ + base64_standard_encode(encode_utf8(user@ + ":"@ + pass@)),
{
    let mut cred: Vec<char> = Vec::new();
    push_str(&mut cred, user);
    push_str(&mut cred, ":");
    push_str(&mut cred, pass);
    let c = string_of(&cred);
    let enc = base64_encode(c.as_str().as_bytes());
    let mut a: Vec<char> = Vec::new();
    push_str(&mut a, "Basic ");
    push_str(&mut a, enc.as_str());
    string_of(&a)
}

/// Where queries are posted.
pub fn graphql_url(base: &str) -> (r: String)
    ensures
        r@ == base@ + "/api/graphql"@,
{
    let mut a: Vec<char> = Vec::new();
    push_str(&mut a, base);
    push_str(&mut a, "/api/graphql");
    string_of(&a)
}

/// Where the login form is posted.
pub fn login_url(base: &str) -> (r: String)
    ensures
        r@ == base@ + "/login.html"@,
{
    let mut a: Vec<char> = Vec::new();
    push_str(&mut a, base);
    push_str(&mut a, "/login.html");
    string_of(&a)
}

/// The body of the login form: user and password, percent-encoded as URI
/// components.
pub fn login_form(user: &str, pass: &str) -> (r: String)
    ensures
        r@ == "user="@ + crate::text::encode_component_spec(user@) + "&pass="@
            + crate::text::encode_component_spec(pass@),
{
    let mut a: Vec<char> = Vec::new();
    push_str(&mut a, "user=");
    push_str(&mut a, crate::text::encode_uri_component(user).as_str());
    push_str(&mut a, "&pass=");
    push_str(&mut a, crate::text::encode_uri_component(pass).as_str());
    string_of(&a)
}

// ---------------------------------------------------------------------------
// Searching the library
// ---------------------------------------------------------------------------

/// What a category condition asks.
#[derive(Debug, Clone, Copy, PartialEq, Eq, Structural)]
pub enum CategoryCondition {
    /// Titles in no category (the default category).
    IsNull,
    /// Titles in the category with this id.
    EqualTo(i32),
}

/// The search over the library: its orderings (property, ascending), the
/// category asked for, and the title pattern (`likeInsensitive`). Only titles
/// in the library are searched.
pub struct SearchVariables {
    pub order: Vec<(&'static str, bool)>,
    pub category: Option<CategoryCondition>,
    pub title_like: Option<String>,
}

/// The property a sort option orders by.
pub open spec fn sort_property(index: i32) -> Option<Seq<char>> {
    if index == 0 {
        Some("TITLE"@)
    } else if index == 1 {
        Some("IN_LIBRARY_AT"@)
    } else if index == 2 {
        Some("LAST_FETCHED_AT"@)
    } else {
        None
    }
}

fn sort_property_exec(index: i32) -> (r: Option<&'static str>)
    ensures
        match r {
            Some(s) => sort_property(index) == Some(s@),
            None => sort_property(index) is None,
        },
{
    if index == 0 {
        Some("TITLE")
    } else if index == 1 {
        Some("IN_LIBRARY_AT")
    } else if index == 2 {
        Some("LAST_FETCHED_AT")
    } else {
        None
    }
}

/// The orderings and category condition after some filters: a known sort
/// option adds an ordering; the category check sets the condition (0 is the
/// default category); other filters are ignored.
pub open spec fn search_fold(fs: Seq<FilterValue>) -> (Seq<(Seq<char>, bool)>, Option<CategoryCondition>)
    decreases fs.len(),
{
    if fs.len() == 0 {
        (seq![], None)
    } else {
        let (order, cat) = search_fold(fs.drop_last());
        match fs.last() {
            FilterValue::Sort { index, ascending, .. } => match sort_property(index) {
                Some(p) => (order.push((p, ascending)), cat),
                None => (order, cat),
            },
            FilterValue::Check { id, value } => if id@ == CATEGORY_FILTER_ID@ {
                (order, Some(if value == 0 { CategoryCondition::IsNull } else { CategoryCondition::EqualTo(value) }))
            } else {
                (order, cat)
            },
            _ => (order, cat),
        }
    }
}

/// What `SearchVariables` hold.
pub open spec fn variables_view(v: SearchVariables) -> (Seq<(Seq<char>, bool)>, Option<CategoryCondition>, Option<Seq<char>>) {
    (v.order@.map_values(|o: (&'static str, bool)| (o.0@, o.1)), v.category, opt_view(v.title_like))
}

/// The search over the library (`get_search_manga_list`): the filters'
/// orderings and category, and `%query%` as the title pattern.
pub fn search_variables(query: Option<&str>, filters: &[FilterValue]) -> (r: SearchVariables)
    ensures
        variables_view(r) == ({
            let (order, cat) = search_fold(filters@);
            (order, cat, match opt_str_view(query) {
                Some(q) => Some("%"@ + q + "%"@),
                None => None,
            })
        }),
{
    let mut order: Vec<(&'static str, bool)> = Vec::new();
    let mut category: Option<CategoryCondition> = None;
    let mut i: usize = 0;
    assert(filters@.take(0) =~= Seq::<FilterValue>::empty());
    while i < filters.len()
        invariant
            i <= filters@.len(),
            (order@.map_values(|o: (&'static str, bool)| (o.0@, o.1)), category) == search_fold(filters@.take(i as int)),
        decreases filters@.len() - i,
    {
        assert(filters@.take(i + 1).drop_last() =~= filters@.take(i as int));
        assert(filters@.take(i + 1).last() == filters@[i as int]);
        let ghost before = order@;
        match &filters[i] {
            FilterValue::Sort { index, ascending, .. } => {
                if let Some(p) = sort_property_exec(*index) {
                    order.push((p, *ascending));
                    assert(order@.map_values(|o: (&'static str, bool)| (o.0@, o.1)) =~= before.map_values(
                        |o: (&'static str, bool)| (o.0@, o.1),
                    ).push((p@, *ascending)));
                }
            },
            FilterValue::Check { id, value } => {
                if str_eq(id.as_str(), CATEGORY_FILTER_ID) {
                    category = Some(if *value == 0 { CategoryCondition::IsNull } else { CategoryCondition::EqualTo(*value) });
                }
            },
            _ => {},
        }
        i = i + 1;
    }
    assert(filters@.take(filters@.len() as int) =~= filters@);
    let title_like = match query {
        Some(q) => {
            let mut a: Vec<char> = Vec::new();
            push_str(&mut a, "%");
            push_str(&mut a, q);
            push_str(&mut a, "%");
            Some(string_of(&a))
        },
        None => None,
    };
    SearchVariables { order, category, title_like }
}

/// The search a category listing makes: by title, ascending, in that
/// category (`get_manga_list`).
pub fn listing_variables(category_id: i32) -> (r: SearchVariables)
    ensures
        variables_view(r) == (
            seq![("TITLE"@, true)],
            Some(if category_id == 0 { CategoryCondition::IsNull } else { CategoryCondition::EqualTo(category_id) }),
            None::<Seq<char>>,
        ),
{
    let filters = vec![
        FilterValue::Sort { id: string_of(&chars_of("")), index: 0, ascending: true },
        FilterValue::Check { id: string_of(&chars_of(CATEGORY_FILTER_ID)), value: category_id },
    ];
    let r = search_variables(None, &filters);
    proof {
        reveal_strlit("CATEGORY");
        let fs = filters@;
        assert(fs.drop_last().drop_last() =~= Seq::<FilterValue>::empty());
        assert(fs.drop_last().last() == fs[0]);
        assert(search_fold(fs.drop_last().drop_last()) == (Seq::<(Seq<char>, bool)>::empty(), None::<CategoryCondition>));
        assert(Seq::<(Seq<char>, bool)>::empty().push(("TITLE"@, true)) =~= seq![("TITLE"@, true)]);
        assert(search_fold(fs.drop_last()) == (seq![("TITLE"@, true)], None::<CategoryCondition>));
    }
    r
}

/// An id as the server writes it, read as an `i32` ("DeserializeError"
/// otherwise).
pub fn parse_id(text: &str) -> (r: Option<i32>)
    ensures
        r == match crate::text::parse_i64_spec(text@) {
            Some(v) => if i32::MIN <= v <= i32::MAX { Some(v as i32) } else { None },
            None => None,
        },
{
    match crate::text::parse_i64(&chars_of(text)) {
        Some(v) => if i32::MIN as i64 <= v && v <= i32::MAX as i64 { Some(v as i32) } else { None },
        None => None,
    }
}

/// A page's address: the server's address and the page's path.
pub fn page_url(base: &str, path: &str) -> (r: String)
    ensures
        r@ == base@ + path@,
{
    let mut a: Vec<char> = Vec::new();
    push_str(&mut a, base);
    push_str(&mut a, path);
    string_of(&a)
}

} // verus!
