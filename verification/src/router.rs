//! Routing rules: which method and path pattern lead to which action.
use vstd::prelude::*;
use regex::RegexSet;
use crate::http::{Method, Response, ResponseView, fresh_response, set_field, status_ok, byte_len};
use crate::text::decimal;

verus! {

#[verifier::external_type_specification]
#[verifier::external_body]
pub struct ExRegexSet(RegexSet);

/// Whether `regex` accepts the patterns `patterns` as a set: every one of
/// them is a valid regular expression and the compiled set stays within
/// its size limit.
pub uninterp spec fn regex_set_compiles(patterns: Seq<Seq<char>>) -> bool;

/// The patterns a compiled regex set was built from, in the order given.
pub uninterp spec fn regex_set_patterns(set: RegexSet) -> Seq<Seq<char>>;

/// The patterns, as plain text.
pub open spec fn pattern_texts(patterns: Seq<&'static str>) -> Seq<Seq<char>> {
    patterns.map_values(|p: &'static str| p@)
}

/// Compiles `patterns` into one regex set.
///
/// Calls `regex::RegexSet::new`. The contract claims that it succeeds
/// exactly when `regex_set_compiles` holds of the patterns (its
/// documentation says an error comes when a pattern is invalid, and its
/// source adds the compiled size limit), and that the set it gives back
/// keeps the patterns as given, in order, as `RegexSet::patterns` documents.
#[verifier::external_body]
fn compile_patterns(patterns: &Vec<&'static str>) -> (r: Option<RegexSet>)
    ensures
        r is Some <==> regex_set_compiles(pattern_texts(patterns@)),
        r matches Some(set) ==> regex_set_patterns(set) == pattern_texts(patterns@),
{
    RegexSet::new(patterns.iter()).ok()
}

/// The body of the page shown for a missing resource.
pub open spec fn not_found_page() -> Seq<char> {
    "<html><body> PAGE NOT FOUND </body></html>"@
}

/// Whether `r` is a `200 OK` response whose body is `body`.
pub open spec fn ok_response_with_body(r: ResponseView, body: Seq<char>) -> bool {
    exists|f: ResponseView|
        #[trigger] fresh_response(f, status_ok()) && r == (ResponseView {
            fields: set_field(f.fields, "Content-Length"@, decimal(byte_len(body))),
            body: body,
            ..f
        })
}

/// Something that renders a response.
pub trait Action {
    fn render(&self) -> Response;
}

/// The action that shows that a page was not found.
pub struct NotFound;

impl Action for NotFound {
    /// A `200 OK` response whose body says that the page was not found.
    fn render(&self) -> (r: Response)
        ensures
            ok_response_with_body(r@, not_found_page()),
    {
        let response = Response::ok();
        let ghost f = response@;
        let body = "<html><body> PAGE NOT FOUND </body></html>".to_owned();
        let r = response.body(body);
        assert(fresh_response(f, status_ok()));
        r
    }
}

/// Collects routing rules and builds a router from them.
///
/// Every rule's action is the not-found page: that is the only action a
/// rule can be given, so the actions are kept as `NotFound` values.
pub struct RouterBuilder {
    regexs: Vec<&'static str>,
    methods: Vec<Method>,
    views: Vec<NotFound>,
}

impl RouterBuilder {
    /// Rule `i` has a pattern, a method and an action.
    #[verifier::type_invariant]
    closed spec fn rules_aligned(self) -> bool {
        self.regexs@.len() == self.methods@.len() && self.methods@.len() == self.views@.len()
    }

    /// The rule patterns collected so far, in order.
    pub closed spec fn patterns(&self) -> Seq<Seq<char>> {
        pattern_texts(self.regexs@)
    }

    /// The rule methods collected so far, in order.
    pub closed spec fn methods(&self) -> Seq<Method> {
        self.methods@
    }

    /// The rule actions collected so far, in order.
    pub closed spec fn actions(&self) -> Seq<NotFound> {
        self.views@
    }

    /// A builder with no rule.
    pub fn new() -> (b: RouterBuilder)
        ensures
            b.patterns() == Seq::<Seq<char>>::empty(),
            b.methods() == Seq::<Method>::empty(),
            b.actions() == Seq::<NotFound>::empty(),
    {
        let b = RouterBuilder { regexs: Vec::new(), methods: Vec::new(), views: Vec::new() };
        assert(b.patterns() =~= Seq::<Seq<char>>::empty());
        b
    }

    /// The builder with one more rule: `GET` on paths matching `a` shows
    /// the not-found page. The rules collected before stay as they were.
    pub fn get(self) -> (b: RouterBuilder)
        ensures
            b.patterns() == self.patterns().push("a"@),
            b.methods() == self.methods().push(Method::GET),
            b.actions() == self.actions().push(NotFound),
    {
        proof {
            use_type_invariant(&self);
        }
        let RouterBuilder { regexs: mut r, methods: mut m, views: mut v } = self;
        r.push("a");
        m.push(Method::GET);
        v.push(NotFound);
        let b = RouterBuilder { regexs: r, methods: m, views: v };
        assert(b.patterns() =~= self.patterns().push("a"@));
        b
    }

    /// The router with the collected rules, whose patterns must compile:
    /// rule `i` keeps its pattern, its method and its action.
    pub fn build(self) -> (r: Router)
        requires
            regex_set_compiles(self.patterns()),
        ensures
            regex_set_patterns(r.regexs) == self.patterns(),
            r.methods@ == self.methods(),
            r.views@ == self.actions(),
            self.patterns().len() == r.methods@.len() && r.methods@.len() == r.views@.len(),
    {
        proof {
            use_type_invariant(&self);
        }
        let RouterBuilder { regexs: r, methods: m, views: v } = self;
        let set = compile_patterns(&r).unwrap();
        Router { regexs: set, methods: m, views: v }
    }

    /// The router with the collected rules, where their patterns compile.
    pub fn try_build(self) -> (r: Option<Router>)
        ensures
            r is Some <==> regex_set_compiles(self.patterns()),
            r matches Some(router) ==> {
                &&& regex_set_patterns(router.regexs) == self.patterns()
                &&& router.methods@ == self.methods()
                &&& router.views@ == self.actions()
                &&& self.patterns().len() == router.methods@.len()
                &&& router.methods@.len() == router.views@.len()
            },
    {
        if compile_patterns(&self.regexs).is_some() {
            Some(self.build())
        } else {
            None
        }
    }
}

/// The compiled routing rules: for each rule its method and action, the
/// patterns compiled into one set.
pub struct Router {
    pub regexs: RegexSet,
    pub methods: Vec<Method>,
    pub views: Vec<NotFound>,
}

impl Router {
    /// The patterns of the default rules.
    pub open spec fn default_patterns() -> Seq<Seq<char>> {
        seq!["a"@, "b"@]
    }

    /// The default router: two `GET` rules, on `a` and on `b`, that show the
    /// not-found page. Its patterns must compile.
    pub fn new() -> (r: Router)
        requires
            regex_set_compiles(Router::default_patterns()),
        ensures
            regex_set_patterns(r.regexs) == Router::default_patterns(),
            r.methods@ == seq![Method::GET, Method::GET],
            r.views@ == seq![NotFound, NotFound],
    {
        let mut patterns: Vec<&'static str> = Vec::new();
        patterns.push("a");
        patterns.push("b");
        assert(pattern_texts(patterns@) =~= Router::default_patterns());
        let set = compile_patterns(&patterns).unwrap();
        let mut methods = Vec::new();
        methods.push(Method::GET);
        methods.push(Method::GET);
        let mut views: Vec<NotFound> = Vec::new();
        views.push(NotFound);
        views.push(NotFound);
        Router { regexs: set, methods: methods, views: views }
    }

    /// The default router, where its patterns compile.
    pub fn try_new() -> (r: Option<Router>)
        ensures
            r is Some <==> regex_set_compiles(Router::default_patterns()),
            r matches Some(router) ==> {
                &&& regex_set_patterns(router.regexs) == Router::default_patterns()
                &&& router.methods@ == seq![Method::GET, Method::GET]
                &&& router.views@ == seq![NotFound, NotFound]
            },
    {
        let mut patterns: Vec<&'static str> = Vec::new();
        patterns.push("a");
        patterns.push("b");
        assert(pattern_texts(patterns@) =~= Router::default_patterns());
        if compile_patterns(&patterns).is_some() {
            Some(Router::new())
        } else {
            None
        }
    }
}

} // verus!
