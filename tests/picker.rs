use op_plugin::{
    after_listing, build_index, category_from_tag, combine_scores, domain_from, is_filled, decode_output, display_selection_items, extract,
    field_value, host_from_url, max_entries, op_path, otp_fetched, otp_present, prefix,
    query_without_prefix, score, top_ranked, url_domains, Action, Category, CatalogItem,
    CommandError, Config, DetailField, Entry, ListedItem, ListingStep, Selection, Session, Stage,
};

fn s(x: &str) -> String {
    x.to_string()
}

fn listed(id: &str, title: &str, category: &str, urls: &[&str]) -> ListedItem {
    ListedItem {
        id: s(id),
        title: s(title),
        category: s(category),
        urls: urls.iter().map(|u| s(u)).collect(),
    }
}

fn field(id: &str, tpe: &str, value: Option<&str>) -> DetailField {
    DetailField { id: s(id), field_type: s(tpe), value: value.map(s) }
}

fn config(max: usize, pre: &str) -> Config {
    Config { max_entries: max, op_path: s("op"), prefix: s(pre) }
}

fn two_logins() -> Vec<ListedItem> {
    vec![
        listed("gh1", "GitHub", "LOGIN", &["https://github.com"]),
        listed("aws1", "AWS Console", "LOGIN", &["https://console.aws.amazon.com"]),
    ]
}

fn handles(r: &[Entry]) -> Vec<u64> {
    r.iter().map(|e| e.handle).collect()
}

fn titles(r: &[Entry]) -> Vec<String> {
    r.iter().map(|e| e.title.clone()).collect()
}

fn full_detail() -> Vec<DetailField> {
    vec![
        field("username", "STRING", Some("alice")),
        field("password", "CONCEALED", Some("hunter2")),
        field("TOTP_x", "OTP", Some("otpauth://totp/x")),
    ]
}

#[test]
fn config_defaults() {
    let c = Config::default();
    assert_eq!(c.max_entries, 10);
    assert_eq!(c.op_path, "op");
    assert_eq!(c.prefix, "");
    assert_eq!(max_entries(), 10);
    assert_eq!(op_path(), "op");
    assert_eq!(prefix(), "");
}

#[test]
fn decode_output_classifies_runs() {
    assert_eq!(decode_output(Some(0), b"[]".to_vec()), Ok(s("[]")));
    assert_eq!(decode_output(Some(0), vec![0xff, 0xfe]), Err(CommandError::UndecodableOutput));
    assert_eq!(decode_output(Some(1), b"x".to_vec()), Err(CommandError::NonZeroExit(1)));
    assert_eq!(decode_output(None, Vec::new()), Err(CommandError::Terminated));
}

#[test]
fn listing_retried_once_only_on_nonzero_exit() {
    assert_eq!(after_listing(0, Err(CommandError::NonZeroExit(1))), ListingStep::RunAgain);
    assert_eq!(
        after_listing(1, Err(CommandError::NonZeroExit(1))),
        ListingStep::Finished(Err(CommandError::NonZeroExit(1)))
    );
    assert_eq!(
        after_listing(0, Err(CommandError::SpawnFailure)),
        ListingStep::Finished(Err(CommandError::SpawnFailure))
    );
    assert_eq!(after_listing(0, Ok(s("[]"))), ListingStep::Finished(Ok(s("[]"))));
}

#[test]
fn listing_failing_twice_leaves_no_results() {
    let first = after_listing(0, Err(CommandError::NonZeroExit(1)));
    assert_eq!(first, ListingStep::RunAgain);
    let second = after_listing(1, Err(CommandError::NonZeroExit(1)));
    let outcome = match second {
        ListingStep::Finished(o) => o,
        ListingStep::RunAgain => panic!("retried twice"),
    };
    let listing: Result<Vec<ListedItem>, CommandError> = outcome.map(|_| Vec::new());
    let mut session = Session::init(Config::default(), listing);
    assert_eq!(session.failure, Some(CommandError::NonZeroExit(1)));
    assert!(session.get_matches(&s("git")).is_empty());
    assert!(session.get_matches(&s("")).is_empty());
    assert_eq!(session.handler(Some(0)), Action::Close);
}

#[test]
fn category_tags() {
    assert_eq!(category_from_tag(&s("LOGIN")), Category::Login);
    assert_eq!(category_from_tag(&s("PASSWORD")), Category::Password);
    assert_eq!(category_from_tag(&s("CREDIT_CARD")), Category::CreditCard);
    assert_eq!(category_from_tag(&s("SECURE_NOTE")), Category::Other);
    assert_eq!(category_from_tag(&s("login")), Category::Other);
}

#[test]
fn url_host_extraction() {
    assert_eq!(host_from_url(&s("https://github.com/login")), Some(s("github.com")));
    assert_eq!(host_from_url(&s("not a url")), Some(s("not a url")));
    assert_eq!(host_from_url(&s("mailto:someone@example.com")), None);
    let d = url_domains(&vec![s("https://a.example.org/x"), s("mailto:x@y.z"), s("plain")]);
    assert_eq!(d, vec![s("a.example.org"), s("plain")]);
}

#[test]
fn index_keeps_supported_categories_in_order() {
    let items = vec![
        listed("1", "Note", "SECURE_NOTE", &[]),
        listed("2", "Mail", "LOGIN", &["https://mail.example.com/inbox"]),
        listed("3", "Visa", "CREDIT_CARD", &[]),
        listed("4", "Doc", "DOCUMENT", &[]),
        listed("5", "Wifi", "PASSWORD", &[]),
    ];
    let index = build_index(&items);
    assert_eq!(index.len(), 3);
    let ids: Vec<(u64, String)> = index.iter().map(|e| (e.handle, e.item.external_id.clone())).collect();
    assert_eq!(ids, vec![(0, s("2")), (1, s("3")), (2, s("5"))]);
    assert_eq!(index[0].item.domains, vec![s("mail.example.com")]);
    assert_eq!(index[1].item.category, Category::CreditCard);
    assert!(build_index(&Vec::new()).is_empty());
}

#[test]
fn top_ranked_orders_and_cuts() {
    assert_eq!(top_ranked(&vec![5, 0, 9, 5, -3, 7], 10), vec![2, 5, 0, 3]);
    assert_eq!(top_ranked(&vec![5, 0, 9, 5, -3, 7], 2), vec![2, 5]);
    assert_eq!(top_ranked(&vec![4, 4, 4], 10), vec![0, 1, 2]);
    assert_eq!(top_ranked(&vec![0, -1], 10), Vec::<usize>::new());
    assert_eq!(top_ranked(&vec![3, 2], 0), Vec::<usize>::new());
    assert_eq!(top_ranked(&Vec::new(), 5), Vec::<usize>::new());
}

#[test]
fn score_uses_best_of_title_and_domains() {
    let item = CatalogItem {
        external_id: s("x"),
        title: s("Zzz"),
        category: Category::Login,
        domains: vec![s("github.com")],
    };
    assert!(score(&item, "git") > 0);
    assert_eq!(score(&item, "qqq"), 0);
    assert_eq!(score(&item, ""), 0);
}

#[test]
fn query_git_ranks_github_alone() {
    let mut session = Session::init(Config::default(), Ok(two_logins()));
    let r = session.get_matches(&s("git"));
    assert_eq!(handles(&r), vec![0]);
    assert_eq!(titles(&r), vec![s("GitHub")]);
    assert_eq!(session.input, Some(s("git")));
}

#[test]
fn empty_query_offers_nothing() {
    let mut session = Session::init(Config::default(), Ok(two_logins()));
    assert!(session.get_matches(&s("")).is_empty());
}

#[test]
fn max_entries_bounds_results() {
    let items = vec![
        listed("a", "alpha one", "LOGIN", &[]),
        listed("b", "alpha two", "LOGIN", &[]),
        listed("c", "alpha three", "LOGIN", &[]),
    ];
    let mut session = Session::init(config(2, ""), Ok(items));
    let r = session.get_matches(&s("alpha"));
    assert_eq!(r.len(), 2);
}

#[test]
fn prefix_gates_queries() {
    assert_eq!(query_without_prefix("op ", "op git"), Some("git"));
    assert_eq!(query_without_prefix("op ", "git"), None);
    assert_eq!(query_without_prefix("", "git"), Some("git"));
    assert_eq!(query_without_prefix("op ", "op"), None);
    let mut session = Session::init(config(10, "op "), Ok(two_logins()));
    assert!(session.get_matches(&s("git")).is_empty());
    assert_eq!(session.input, None);
    let r = session.get_matches(&s("op git"));
    assert_eq!(handles(&r), vec![0]);
}

#[test]
fn field_extraction_takes_first_matching_field() {
    let fields = vec![
        field("username", "STRING", Some("first")),
        field("username", "STRING", Some("second")),
        field("notes", "STRING", None),
    ];
    assert_eq!(field_value(&fields, &s("username")), Some(s("first")));
    assert_eq!(field_value(&fields, &s("notes")), None);
    assert_eq!(field_value(&fields, &s("password")), None);
    assert!(!otp_present(&fields));
    assert!(otp_present(&full_detail()));
}

#[test]
fn extract_reads_card_fields() {
    let fields = vec![
        field("ccnum", "CREDITCARDNUMBER", Some("4111")),
        field("cvv", "CONCEALED", Some("123")),
        field("expiry", "MONTH_YEAR", Some("202612")),
    ];
    let sel = extract(&s("card1"), &fields);
    assert_eq!(sel.id, "card1");
    assert_eq!(sel.username, None);
    assert_eq!(sel.ccnum, Some(s("4111")));
    assert_eq!(sel.cvv, Some(s("123")));
    assert_eq!(sel.expiry, Some(s("202612")));
    assert!(!sel.has_otp);
    let r = display_selection_items(&sel);
    assert_eq!(handles(&r), vec![3, 4, 5]);
    assert_eq!(titles(&r), vec![s("Number"), s("CCV"), s("Expiry")]);
}

#[test]
fn absent_username_slot_not_offered() {
    let fields = vec![field("password", "CONCEALED", Some("pw"))];
    let sel = extract(&s("i"), &fields);
    let r = display_selection_items(&sel);
    assert_eq!(handles(&r), vec![1]);
    assert!(!handles(&r).contains(&0));
}

#[test]
fn otp_slot_needs_otp_field() {
    let with_otp = extract(&s("i"), &full_detail());
    assert_eq!(handles(&display_selection_items(&with_otp)), vec![0, 1, 2]);
    assert_eq!(
        titles(&display_selection_items(&with_otp)),
        vec![s("Username"), s("Password"), s("One-time password")]
    );
    let mut two = full_detail();
    two.truncate(2);
    let without = extract(&s("i"), &two);
    assert_eq!(handles(&display_selection_items(&without)), vec![0, 1]);
}

fn picking_session() -> Session {
    let mut session = Session::init(Config::default(), Ok(two_logins()));
    session.get_matches(&s("git"));
    assert_eq!(session.handler(Some(0)), Action::FetchDetail(s("gh1")));
    assert_eq!(session.detail_fetched(&s("gh1"), Ok(full_detail())), Action::Refresh);
    session
}

#[test]
fn pick_fetches_detail_then_shows_fields() {
    let mut session = picking_session();
    assert!(matches!(session.stage, Stage::FieldPicking { .. }));
    let r = session.get_matches(&s("git"));
    assert_eq!(handles(&r), vec![0, 1, 2]);
}

#[test]
fn redisplay_same_query_is_stable() {
    let mut session = picking_session();
    let first = handles(&session.get_matches(&s("git")));
    assert_eq!(session.handler(Some(1)), Action::Copy(s("hunter2")));
    let again = handles(&session.get_matches(&s("git")));
    assert_eq!(first, again);
    assert!(matches!(session.stage, Stage::FieldPicking { .. }));
}

#[test]
fn other_query_returns_to_search() {
    let mut session = picking_session();
    let r = session.get_matches(&s("aws"));
    assert!(matches!(session.stage, Stage::Searching));
    assert_eq!(titles(&r), vec![s("AWS Console")]);
    assert_eq!(session.input, Some(s("aws")));
}

#[test]
fn field_picks_map_to_actions() {
    let session = picking_session();
    assert_eq!(session.handler(Some(0)), Action::Copy(s("alice")));
    assert_eq!(session.handler(Some(1)), Action::Copy(s("hunter2")));
    assert_eq!(session.handler(Some(2)), Action::FetchOtp(s("gh1")));
    assert_eq!(session.handler(Some(3)), Action::Close);
    assert_eq!(session.handler(Some(9)), Action::Close);
    assert_eq!(session.handler(None), Action::Close);
}

#[test]
fn search_picks_unknown_handle_close() {
    let mut session = Session::init(Config::default(), Ok(two_logins()));
    session.get_matches(&s("git"));
    assert_eq!(session.handler(Some(1)), Action::FetchDetail(s("aws1")));
    assert_eq!(session.handler(Some(7)), Action::Close);
    assert_eq!(session.handler(None), Action::Close);
}

#[test]
fn failed_detail_fetch_closes_flow() {
    let mut session = Session::init(Config::default(), Ok(two_logins()));
    session.get_matches(&s("git"));
    assert_eq!(
        session.detail_fetched(&s("gh1"), Err(CommandError::DetailDecodeFailure)),
        Action::Close
    );
    assert!(matches!(session.stage, Stage::Searching));
    let mut fresh = Session::init(Config::default(), Ok(two_logins()));
    assert_eq!(fresh.detail_fetched(&s("gh1"), Ok(full_detail())), Action::Close);
    assert!(matches!(fresh.stage, Stage::Searching));
}

#[test]
fn otp_output_is_trimmed() {
    assert_eq!(otp_fetched(Ok(s("  123456\n"))), Action::Copy(s("123456")));
    assert_eq!(otp_fetched(Err(CommandError::NonZeroExit(1))), Action::Close);
}

#[test]
fn selection_holds_values() {
    let sel = Selection {
        id: s("x"),
        username: None,
        password: None,
        has_otp: false,
        ccnum: None,
        cvv: None,
        expiry: None,
    };
    assert!(display_selection_items(&sel).is_empty());
}

#[test]
fn equal_scores_keep_index_order() {
    let items = vec![
        listed("a", "alpha", "LOGIN", &[]),
        listed("n", "Note", "SECURE_NOTE", &[]),
        listed("b", "alpha", "PASSWORD", &[]),
    ];
    let mut session = Session::init(Config::default(), Ok(items));
    let r = session.get_matches(&s("alpha"));
    assert_eq!(handles(&r), vec![0, 1]);
}

#[test]
fn matching_is_smart_case() {
    let item = CatalogItem {
        external_id: s("x"),
        title: s("github"),
        category: Category::Login,
        domains: Vec::new(),
    };
    assert!(score(&item, "git") > 0);
    assert_eq!(score(&item, "Git"), 0);
    let upper = CatalogItem { title: s("GitHub"), ..item };
    assert!(score(&upper, "git") > 0);
    assert!(score(&upper, "Git") > 0);
}

#[test]
fn empty_username_and_password_not_offered() {
    let fields = vec![
        field("username", "STRING", Some("")),
        field("password", "CONCEALED", Some("")),
        field("TOTP_x", "OTP", None),
    ];
    let sel = extract(&s("i"), &fields);
    assert_eq!(sel.username, Some(s("")));
    let r = display_selection_items(&sel);
    assert_eq!(handles(&r), vec![2]);
    assert!(!handles(&r).contains(&0));
}

#[test]
fn empty_username_redisplay_and_pick() {
    let mut session = Session::init(Config::default(), Ok(two_logins()));
    session.get_matches(&s("git"));
    let fields = vec![field("username", "STRING", Some("")), field("password", "CONCEALED", Some("pw"))];
    assert_eq!(session.detail_fetched(&s("gh1"), Ok(fields)), Action::Refresh);
    let r = session.get_matches(&s("git"));
    assert_eq!(handles(&r), vec![1]);
    assert_eq!(session.handler(Some(0)), Action::Close);
    assert_eq!(session.handler(Some(1)), Action::Copy(s("pw")));
}

#[test]
fn filled_values() {
    assert!(is_filled(&Some(s("a"))));
    assert!(!is_filled(&Some(s(""))));
    assert!(!is_filled(&None));
}

#[test]
fn combine_scores_takes_best() {
    assert_eq!(combine_scores(Some(5), &vec![Some(3), None, Some(9)]), 9);
    assert_eq!(combine_scores(Some(5), &vec![Some(3)]), 5);
    assert_eq!(combine_scores(None, &vec![None]), 0);
    assert_eq!(combine_scores(None, &Vec::new()), 0);
    assert_eq!(combine_scores(Some(-4), &vec![Some(-2), Some(-7)]), -2);
    assert_eq!(combine_scores(Some(-4), &Vec::new()), 0);
}

#[test]
fn domain_from_parsed_results() {
    assert_eq!(domain_from(&s("https://a.b/c"), Some(Some(s("a.b")))), Some(s("a.b")));
    assert_eq!(domain_from(&s("mailto:x@y.z"), Some(None)), None);
    assert_eq!(domain_from(&s("raw text"), None), Some(s("raw text")));
}

#[test]
fn otp_trim_removes_unicode_whitespace() {
    assert_eq!(otp_fetched(Ok(s("\u{3000}\t042 917\u{a0}\r\n"))), Action::Copy(s("042 917")));
    assert_eq!(otp_fetched(Ok(s(" \n "))), Action::Copy(s("")));
}
