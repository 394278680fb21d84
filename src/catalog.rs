use vstd::prelude::*;

verus! {

/// The kinds of item that the store lists.
#[derive(Debug, Clone, Copy, PartialEq, Eq, Structural)]
pub enum Category {
    Login,
    Password,
    CreditCard,
    Other,
}

/// One entry of the store's catalog listing, as it was decoded.
pub struct ListedItem {
    pub id: String,
    pub title: String,
    /// The store's category tag, such as `LOGIN`.
    pub category: String,
    /// The item's stored URLs, verbatim.
    pub urls: Vec<String>,
}

/// An item of the working set.
pub struct CatalogItem {
    /// The store's own identifier of the item.
    pub external_id: String,
    pub title: String,
    pub category: Category,
    /// Names matched against queries besides the title.
    pub domains: Vec<String>,
}

/// An item with its session-local handle.
pub struct IndexedItem {
    pub handle: u64,
    pub item: CatalogItem,
}

/// The category that a tag of the store names.
pub open spec fn category_of(tag: Seq<char>) -> Category {
    if tag == "LOGIN"@ {
        Category::Login
    } else if tag == "PASSWORD"@ {
        Category::Password
    } else if tag == "CREDIT_CARD"@ {
        Category::CreditCard
    } else {
        Category::Other
    }
}

/// Whether items of a category belong to the working set.
pub open spec fn supported(c: Category) -> bool {
    c != Category::Other
}

/// Reads a category tag.
pub fn category_from_tag(tag: &String) -> (r: Category)
    ensures
        r == category_of(tag@),
{
    if *tag == String::from_str("LOGIN") {
        Category::Login
    } else if *tag == String::from_str("PASSWORD") {
        Category::Password
    } else if *tag == String::from_str("CREDIT_CARD") {
        Category::CreditCard
    } else {
        Category::Other
    }
}

/// What the URL parser makes of a text: `None` where it is no URL, else the
/// URL's host, if it has one.
pub uninterp spec fn parsed_host(s: Seq<char>) -> Option<Option<Seq<char>>>;

/// What an optional optional string holds, as sequences.
pub open spec fn opt_opt_view(o: Option<Option<String>>) -> Option<Option<Seq<char>>> {
    match o {
        Some(Some(s)) => Some(Some(s@)),
        Some(None) => Some(None),
        None => None,
    }
}

/// Relies on url::Url::parse and url::Url::host_str: whether the text parses
/// as a URL, and the host of the URL that it parses to.
#[verifier::external_body]
fn url_host(s: &str) -> (r: Option<Option<String>>)
    ensures
        opt_opt_view(r) == parsed_host(s@),
{
    url::Url::parse(s).ok().map(|u| u.host_str().map(|h| h.to_string()))
}

/// The name matched for a stored URL, given what the URL parser made of it:
/// the host where it parsed (nothing where that URL has no host), else the
/// text itself.
pub open spec fn domain_choice(url: Seq<char>, parsed: Option<Option<Seq<char>>>) -> Option<Seq<char>> {
    match parsed {
        Some(host) => host,
        None => Some(url),
    }
}

/// The name matched for a stored URL.
pub open spec fn domain_of(url: Seq<char>) -> Option<Seq<char>> {
    domain_choice(url, parsed_host(url))
}

/// The name matched for a stored URL, given what the URL parser made of it.
pub fn domain_from(url: &String, parsed: Option<Option<String>>) -> (r: Option<String>)
    ensures
        r.is_some() == domain_choice(url@, opt_opt_view(parsed)).is_some(),
        r.is_some() ==> r.unwrap()@ == domain_choice(url@, opt_opt_view(parsed)).unwrap(),
{
    match parsed {
        Some(host) => host,
        None => Some(url.clone()),
    }
}

/// The names matched for a list of stored URLs, in order.
pub open spec fn domains_of(urls: Seq<Seq<char>>) -> Seq<Seq<char>>
    decreases urls.len(),
{
    if urls.len() == 0 {
        Seq::empty()
    } else {
        let rest = domains_of(urls.drop_last());
        match domain_of(urls.last()) {
            Some(d) => rest.push(d),
            None => rest,
        }
    }
}

/// The views of a list of strings.
pub open spec fn views(v: Seq<String>) -> Seq<Seq<char>> {
    v.map_values(|s: String| s@)
}

/// The name to match for one stored URL.
pub fn host_from_url(url: &String) -> (r: Option<String>)
    ensures
        r.is_some() == domain_of(url@).is_some(),
        r.is_some() ==> r.unwrap()@ == domain_of(url@).unwrap(),
{
    let parsed = url_host(url.as_str());
    domain_from(url, parsed)
}

/// The names to match for all stored URLs of an item.
pub fn url_domains(urls: &Vec<String>) -> (r: Vec<String>)
    ensures
        views(r@) == domains_of(views(urls@)),
{
    let mut r: Vec<String> = Vec::new();
    let mut i: usize = 0;
    while i < urls.len()
        invariant
            i <= urls.len(),
            views(r@) == domains_of(views(urls@.subrange(0, i as int))),
        decreases urls.len() - i,
    {
        let d = host_from_url(&urls[i]);
        proof {
            assert(views(urls@.subrange(0, i + 1)).drop_last() =~= views(urls@.subrange(0, i as int)));
            assert(views(urls@.subrange(0, i + 1)).last() == urls@[i as int]@);
        }
        match d {
            Some(s) => {
                let ghost prev = r@;
                let ghost sv = s@;
                r.push(s);
                assert(views(r@) =~= views(prev).push(sv));
            },
            None => {},
        }
        i += 1;
    }
    assert(urls@.subrange(0, urls.len() as int) =~= urls@);
    r
}

/// The listed items that belong to the working set, in listing order.
pub open spec fn kept(items: Seq<ListedItem>) -> Seq<ListedItem>
    decreases items.len(),
{
    if items.len() == 0 {
        Seq::empty()
    } else {
        let rest = kept(items.drop_last());
        if supported(category_of(items.last().category@)) {
            rest.push(items.last())
        } else {
            rest
        }
    }
}

/// `e` is the listed item `src`, taken in under handle `k`.
pub open spec fn indexed_as(e: IndexedItem, k: int, src: ListedItem) -> bool {
    &&& e.handle == k
    &&& e.item.external_id@ == src.id@
    &&& e.item.title@ == src.title@
    &&& e.item.category == category_of(src.category@)
    &&& views(e.item.domains@) == domains_of(views(src.urls@))
}

/// Handles are dense and follow the order of the index.
pub open spec fn index_wf(items: Seq<IndexedItem>) -> bool {
    forall|k: int| 0 <= k < items.len() ==> #[trigger] items[k].handle == k
}

/// Builds the session's index from the catalog listing: items of supported
/// categories only, in listing order, numbered from zero.
pub fn build_index(listed: &Vec<ListedItem>) -> (r: Vec<IndexedItem>)
    requires
        listed@.len() <= u64::MAX,
    ensures
        r@.len() == kept(listed@).len(),
        forall|k: int| 0 <= k < r@.len() ==> indexed_as(#[trigger] r@[k], k, kept(listed@)[k]),
        index_wf(r@),
{
    let mut r: Vec<IndexedItem> = Vec::new();
    let mut i: usize = 0;
    while i < listed.len()
        invariant
            i <= listed.len(),
            listed@.len() <= u64::MAX,
            r@.len() == kept(listed@.subrange(0, i as int)).len(),
            r@.len() <= i,
            forall|k: int|
                0 <= k < r@.len() ==> indexed_as(
                    #[trigger] r@[k],
                    k,
                    kept(listed@.subrange(0, i as int))[k],
                ),
        decreases listed.len() - i,
    {
        let it = &listed[i];
        let ghost before = listed@.subrange(0, i as int);
        proof {
            assert(listed@.subrange(0, i + 1).drop_last() =~= before);
            assert(listed@.subrange(0, i + 1).last() == listed@[i as int]);
        }
        let category = category_from_tag(&it.category);
        if category != Category::Other {
            let item = CatalogItem {
                external_id: it.id.clone(),
                title: it.title.clone(),
                category,
                domains: url_domains(&it.urls),
            };
            let handle = r.len() as u64;
            r.push(IndexedItem { handle, item });
        }
        i += 1;
    }
    assert(listed@.subrange(0, listed.len() as int) =~= listed@);
    r
}

} // verus!
