use vstd::prelude::*;
use crate::text::{push_str, string_of};

verus! {

/// The element id `main_menu_load_file`.
pub const ID_MAIN_MENU_LOAD_FILE: &'static str = "main_menu_load_file";

/// The element id `main_menu_refresh_accounts`.
pub const ID_MAIN_MENU_REFRESH_ACCOUNTS: &'static str = "main_menu_refresh_accounts";

/// The element id `main_menu_save_file`.
pub const ID_MAIN_MENU_SAVE_FILE: &'static str = "main_menu_save_file";

/// The element id `main_menu_reports`.
pub const ID_MAIN_MENU_REPORTS: &'static str = "main_menu_reports";

/// The element id `main_menu_settings`.
pub const ID_MAIN_MENU_SETTINGS: &'static str = "main_menu_settings";

/// The element id `money_manager_file_input`.
pub const ID_MONEY_MANAGER_FILE_INPUT: &'static str = "money_manager_file_input";

/// The element id `money_manager_filename_input`.
pub const ID_MONEY_MANAGER_FILENAME_INPUT: &'static str = "money_manager_filename_input";

/// The element id `body`.
pub const ID_BODY: &'static str = "body";

/// The element id `footer`.
pub const ID_FOOTER: &'static str = "footer";


/// The attribute that gives an element an id: `id='...'`.
pub open spec fn id_attribute(id: Seq<char>) -> Seq<char> {
    "id='"@ + id + "'"@
}

/// The concatenation of a list of texts.
pub open spec fn concat_all(ps: Seq<Seq<char>>) -> Seq<char>
    decreases ps.len(),
{
    if ps.len() == 0 {
        Seq::empty()
    } else {
        concat_all(ps.drop_last()) + ps.last()
    }
}

/// The texts that make up the application's page, in order.
pub open spec fn page_pieces() -> Seq<Seq<char>> {
    seq![
        "<!DOCTYPE html>\n<html>\n<head>\n<meta charset=\"utf-8\">\n<title>Money Manager</title>\n<link rel=\"stylesheet\" href=\"css/app.css\">\n<script src=\"scripts/sql-wasm.js\"></script>\n<script src=\"scripts/Chart.min.js\"></script>\n<script src=\"scripts/app.js\"></script>\n</head>\n<body>\n<div id='main_menu'>\n"@,
        "<a href='javascript:void(0);' "@,
        "id='"@,
        ID_MAIN_MENU_LOAD_FILE@,
        "'"@,
        ">Load File</a>\n"@,
        "<a href='javascript:void(0);' "@,
        "id='"@,
        ID_MAIN_MENU_REFRESH_ACCOUNTS@,
        "'"@,
        ">Accounts</a>\n"@,
        "<a href='javascript:void(0);' "@,
        "id='"@,
        ID_MAIN_MENU_SAVE_FILE@,
        "'"@,
        ">Save File</a>\n"@,
        "<a href='javascript:void(0);' "@,
        "id='"@,
        ID_MAIN_MENU_REPORTS@,
        "'"@,
        ">Reports</a>\n"@,
        "<a href='javascript:void(0);' "@,
        "id='"@,
        ID_MAIN_MENU_SETTINGS@,
        "'"@,
        ">Settings</a>\n"@,
        "<input type='file' "@,
        "id='"@,
        ID_MONEY_MANAGER_FILE_INPUT@,
        "'"@,
        " style='display:none;'>\n"@,
        "<input type='hidden' "@,
        "id='"@,
        ID_MONEY_MANAGER_FILENAME_INPUT@,
        "'"@,
        " value=''>\n</div>\n"@,
        "<div "@,
        "id='"@,
        ID_BODY@,
        "'"@,
        "></div>\n"@,
        "<div "@,
        "id='"@,
        ID_FOOTER@,
        "'"@,
        "></div>\n"@,
        "</body>\n</html>\n"@,
    ]
}

/// The application's page: a menu of links, the hidden file inputs, and the body
/// and footer that the screens fill.
pub open spec fn page_html_spec() -> Seq<char> {
    concat_all(page_pieces())
}

/// The HTML of the application's page.
pub fn get_default_page_html() -> (r: String)
    ensures
        r@ == page_html_spec(),
{
    let pieces: [&str; 47] = [
        "<!DOCTYPE html>\n<html>\n<head>\n<meta charset=\"utf-8\">\n<title>Money Manager</title>\n<link rel=\"stylesheet\" href=\"css/app.css\">\n<script src=\"scripts/sql-wasm.js\"></script>\n<script src=\"scripts/Chart.min.js\"></script>\n<script src=\"scripts/app.js\"></script>\n</head>\n<body>\n<div id='main_menu'>\n",
        "<a href='javascript:void(0);' ",
        "id='",
        ID_MAIN_MENU_LOAD_FILE,
        "'",
        ">Load File</a>\n",
        "<a href='javascript:void(0);' ",
        "id='",
        ID_MAIN_MENU_REFRESH_ACCOUNTS,
        "'",
        ">Accounts</a>\n",
        "<a href='javascript:void(0);' ",
        "id='",
        ID_MAIN_MENU_SAVE_FILE,
        "'",
        ">Save File</a>\n",
        "<a href='javascript:void(0);' ",
        "id='",
        ID_MAIN_MENU_REPORTS,
        "'",
        ">Reports</a>\n",
        "<a href='javascript:void(0);' ",
        "id='",
        ID_MAIN_MENU_SETTINGS,
        "'",
        ">Settings</a>\n",
        "<input type='file' ",
        "id='",
        ID_MONEY_MANAGER_FILE_INPUT,
        "'",
        " style='display:none;'>\n",
        "<input type='hidden' ",
        "id='",
        ID_MONEY_MANAGER_FILENAME_INPUT,
        "'",
        " value=''>\n</div>\n",
        "<div ",
        "id='",
        ID_BODY,
        "'",
        "></div>\n",
        "<div ",
        "id='",
        ID_FOOTER,
        "'",
        "></div>\n",
        "</body>\n</html>\n",
    ];
    proof {
        assert(pieces@.map_values(|p: &str| p@) =~= page_pieces());
    }
    let mut r = String::new();
    let mut i: usize = 0;
    while i < 47
        invariant
            0 <= i <= 47,
            pieces@.map_values(|p: &str| p@) == page_pieces(),
            r@ == concat_all(page_pieces().take(i as int)),
        decreases 47 - i,
    {
        push_str(&mut r, pieces[i]);
        proof {
            assert(page_pieces().take(i as int + 1).drop_last() =~= page_pieces().take(i as int));
        }
        i = i + 1;
    }
    proof {
        assert(page_pieces().take(47) =~= page_pieces());
    }
    r
}

/// The style sheet of the application's page.
pub const PAGE_CSS: &'static str = ".body_table_header {\n    display: grid;\n    grid-auto-flow: column;\n    font-weight: bold;\n}\n.body_table {\n    overflow-y: auto;\n    max-height: 70vh;\n}\n.body_row {\n    display: grid;\n    grid-auto-flow: column;\n    border-bottom: 1px solid #ccc;\n}\n.body_row:hover {\n    background-color: #eef;\n}\n.account_balance, .transaction_change, .transaction_balance, .transaction_increase, .transaction_decrease {\n    text-align: end;\n}\n#main_menu a {\n    margin-right: 1em;\n}\n.lds-spinner {\n    display: inline-block;\n    position: relative;\n    width: 80px;\n    height: 80px;\n}\n.lds-spinner div {\n    transform-origin: 40px 40px;\n    animation: lds-spinner 1.2s linear infinite;\n}\n@keyframes lds-spinner {\n    0% { opacity: 1; }\n    100% { opacity: 0; }\n}\n";

/// The style sheet of the application's page.
pub fn get_default_page_css() -> (r: String)
    ensures
        r@ == PAGE_CSS@,
{
    string_of(PAGE_CSS)
}

/// The script of the application's page: it loads the SQLite engine that the page's database calls use, as `sqlContext`.
pub const PAGE_JS: &'static str = "var sqlContext = null;\ninitSqlJs({ locateFile: function (file) { return 'scripts/' + file; } }).then(function (SQL) {\n    sqlContext = SQL;\n    window.sqlContext = SQL;\n});\n";

/// The script of the application's page.
pub fn get_default_page_js() -> (r: String)
    ensures
        r@ == PAGE_JS@,
{
    string_of(PAGE_JS)
}


/// Whether `needle` occurs in `hay` as a run of consecutive characters.
pub open spec fn contains_text(hay: Seq<char>, needle: Seq<char>) -> bool {
    exists|i: int| 0 <= i && i + needle.len() <= hay.len() && #[trigger] hay.subrange(i, i + needle.len()) == needle
}

proof fn lemma_concat_contains_run(ps: Seq<Seq<char>>, k: int)
    requires
        0 <= k && k + 2 < ps.len(),
    ensures
        contains_text(concat_all(ps), ps[k] + ps[k + 1] + ps[k + 2]),
    decreases ps.len(),
{
    let needle = ps[k] + ps[k + 1] + ps[k + 2];
    if k + 3 == ps.len() {
        let p3 = ps.drop_last();
        let p2 = p3.drop_last();
        let p1 = p2.drop_last();
        assert(concat_all(ps) == concat_all(p1) + ps[k] + ps[k + 1] + ps[k + 2]) by {
            assert(p3.last() == ps[k + 1]);
            assert(p2.last() == ps[k]);
            assert(concat_all(ps) == concat_all(p3) + ps[k + 2]);
            assert(concat_all(p3) == concat_all(p2) + ps[k + 1]);
            assert(concat_all(p2) == concat_all(p1) + ps[k]);
        }
        let a = concat_all(p1);
        assert(concat_all(ps).subrange(a.len() as int, a.len() + needle.len() as int) =~= needle);
    } else {
        lemma_concat_contains_run(ps.drop_last(), k);
        let pre = concat_all(ps.drop_last());
        let i = choose|i: int| 0 <= i && i + needle.len() <= pre.len() && #[trigger] pre.subrange(i, i + needle.len()) == needle;
        assert(concat_all(ps).subrange(i, i + needle.len()) =~= pre.subrange(i, i + needle.len()));
    }
}

/// Every element that the page's controls are wired to is on the page: the menu
/// links, the file inputs, the body and the footer.
pub proof fn lemma_page_has_wired_elements()
    ensures
        contains_text(page_html_spec(), id_attribute(ID_MAIN_MENU_LOAD_FILE@)),
        contains_text(page_html_spec(), id_attribute(ID_MAIN_MENU_REFRESH_ACCOUNTS@)),
        contains_text(page_html_spec(), id_attribute(ID_MAIN_MENU_SAVE_FILE@)),
        contains_text(page_html_spec(), id_attribute(ID_MAIN_MENU_REPORTS@)),
        contains_text(page_html_spec(), id_attribute(ID_MAIN_MENU_SETTINGS@)),
        contains_text(page_html_spec(), id_attribute(ID_MONEY_MANAGER_FILE_INPUT@)),
        contains_text(page_html_spec(), id_attribute(ID_MONEY_MANAGER_FILENAME_INPUT@)),
        contains_text(page_html_spec(), id_attribute(ID_BODY@)),
        contains_text(page_html_spec(), id_attribute(ID_FOOTER@)),
{
    lemma_concat_contains_run(page_pieces(), 2);
    assert(page_pieces()[2] + page_pieces()[3] + page_pieces()[4] =~= id_attribute(ID_MAIN_MENU_LOAD_FILE@));
    lemma_concat_contains_run(page_pieces(), 7);
    assert(page_pieces()[7] + page_pieces()[8] + page_pieces()[9] =~= id_attribute(ID_MAIN_MENU_REFRESH_ACCOUNTS@));
    lemma_concat_contains_run(page_pieces(), 12);
    assert(page_pieces()[12] + page_pieces()[13] + page_pieces()[14] =~= id_attribute(ID_MAIN_MENU_SAVE_FILE@));
    lemma_concat_contains_run(page_pieces(), 17);
    assert(page_pieces()[17] + page_pieces()[18] + page_pieces()[19] =~= id_attribute(ID_MAIN_MENU_REPORTS@));
    lemma_concat_contains_run(page_pieces(), 22);
    assert(page_pieces()[22] + page_pieces()[23] + page_pieces()[24] =~= id_attribute(ID_MAIN_MENU_SETTINGS@));
    lemma_concat_contains_run(page_pieces(), 27);
    assert(page_pieces()[27] + page_pieces()[28] + page_pieces()[29] =~= id_attribute(ID_MONEY_MANAGER_FILE_INPUT@));
    lemma_concat_contains_run(page_pieces(), 32);
    assert(page_pieces()[32] + page_pieces()[33] + page_pieces()[34] =~= id_attribute(ID_MONEY_MANAGER_FILENAME_INPUT@));
    lemma_concat_contains_run(page_pieces(), 37);
    assert(page_pieces()[37] + page_pieces()[38] + page_pieces()[39] =~= id_attribute(ID_BODY@));
    lemma_concat_contains_run(page_pieces(), 42);
    assert(page_pieces()[42] + page_pieces()[43] + page_pieces()[44] =~= id_attribute(ID_FOOTER@));
}

} // verus!
