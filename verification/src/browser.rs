//! The result browser: how it answers once the database has been asked.

use vstd::prelude::*;

verus! {

/// An answer of the result browser.
#[derive(Clone, Debug, PartialEq, Eq)]
pub enum Reply {
    /// A page.
    Page { html: String },
    /// A file to download.
    File { content_type: String, content_disposition: String, content: String },
    /// There is no such thing.
    NotFound,
    /// The server failed, for the reason given.
    Failed { message: String },
}

pub enum ReplyView {
    Page { html: Seq<char> },
    File { content_type: Seq<char>, content_disposition: Seq<char>, content: Seq<char> },
    NotFound,
    Failed { message: Seq<char> },
}

impl View for Reply {
    type V = ReplyView;

    open spec fn view(&self) -> ReplyView {
        match self {
            Reply::Page { html } => ReplyView::Page { html: html@ },
            Reply::File { content_type, content_disposition, content } => ReplyView::File {
                content_type: content_type@,
                content_disposition: content_disposition@,
                content: content@,
            },
            Reply::NotFound => ReplyView::NotFound,
            Reply::Failed { message } => ReplyView::Failed { message: message@ },
        }
    }
}

impl DeepView for Reply {
    type V = ReplyView;

    open spec fn deep_view(&self) -> ReplyView {
        self@
    }
}

/// A digit as a character.
pub open spec fn digit(d: nat) -> char {
    if d == 0 {
        '0'
    } else if d == 1 {
        '1'
    } else if d == 2 {
        '2'
    } else if d == 3 {
        '3'
    } else if d == 4 {
        '4'
    } else if d == 5 {
        '5'
    } else if d == 6 {
        '6'
    } else if d == 7 {
        '7'
    } else if d == 8 {
        '8'
    } else {
        '9'
    }
}

/// A number in decimal digits, without leading zeros.
pub open spec fn decimal(n: nat) -> Seq<char>
    decreases n,
{
    if n < 10 {
        seq![digit(n)]
    } else {
        decimal(n / 10).push(digit(n % 10))
    }
}

/// The name under which a file of a result is handed out.
pub open spec fn disposition(id: nat, suffix: Seq<char>) -> Seq<char> {
    "attachment; filename=\"benchmark_"@ + decimal(id) + suffix
}

/// The answer where the database could not be asked.
pub open spec fn database_failure() -> ReplyView {
    ReplyView::Failed { message: "Failed to retrieve data from DB."@ }
}

/// The answer with the raw data of a result; `found` holds the raw data, or
/// nothing where the database could not be asked.
pub open spec fn raw_data_reply(id: nat, found: Option<Seq<char>>) -> ReplyView {
    match found {
        Some(raw_data) => ReplyView::File {
            content_type: "text/txt; charset=utf-8"@,
            content_disposition: disposition(id, "_raw_data.txt\""@),
            content: raw_data,
        },
        None => database_failure(),
    }
}

/// The answer with the notebook of a result; `found` holds the notebook of
/// the result, if it has one, or nothing where the database could not be
/// asked.
pub open spec fn jupyter_reply(id: nat, found: Option<Option<Seq<char>>>) -> ReplyView {
    match found {
        Some(Some(notebook)) => ReplyView::File {
            content_type: "text/json; charset=utf-8"@,
            content_disposition: disposition(id, "_jupyter.ipynb\""@),
            content: notebook,
        },
        Some(None) => ReplyView::NotFound,
        None => database_failure(),
    }
}

/// The answer with a page; `rendered` holds the page or the reason why it
/// could not be rendered, or nothing where the database could not be asked.
pub open spec fn page_reply(
    rendered: Option<Result<Seq<char>, Seq<char>>>,
    complaint: Seq<char>,
) -> ReplyView {
    match rendered {
        Some(Ok(html)) => ReplyView::Page { html: html },
        Some(Err(reason)) => ReplyView::Failed { message: complaint + reason + "."@ },
        None => database_failure(),
    }
}

fn digit_text(d: u32) -> (text: &'static str)
    requires
        d < 10,
    ensures
        text@ == seq![digit(d as nat)],
{
    proof {
        reveal_strlit("0");
        reveal_strlit("1");
        reveal_strlit("2");
        reveal_strlit("3");
        reveal_strlit("4");
        reveal_strlit("5");
        reveal_strlit("6");
        reveal_strlit("7");
        reveal_strlit("8");
        reveal_strlit("9");
    }
    let text = if d == 0 {
        "0"
    } else if d == 1 {
        "1"
    } else if d == 2 {
        "2"
    } else if d == 3 {
        "3"
    } else if d == 4 {
        "4"
    } else if d == 5 {
        "5"
    } else if d == 6 {
        "6"
    } else if d == 7 {
        "7"
    } else if d == 8 {
        "8"
    } else {
        "9"
    };
    assert(text@ =~= seq![digit(d as nat)]);
    text
}

/// A number in decimal digits.
pub fn decimal_text(n: u32) -> (text: String)
    ensures
        text@ == decimal(n as nat),
    decreases n,
{
    if n < 10 {
        digit_text(n).to_owned()
    } else {
        let mut text = decimal_text(n / 10);
        text.append(digit_text(n % 10));
        assert(text@ =~= decimal((n / 10) as nat).push(digit((n % 10) as nat)));
        text
    }
}

fn file_name(id: u32, suffix: &str) -> (name: String)
    ensures
        name@ == disposition(id as nat, suffix@),
{
    let mut name = "attachment; filename=\"benchmark_".to_owned();
    name.append(decimal_text(id).as_str());
    name.append(suffix);
    name
}

fn failed_database() -> (reply: Reply)
    ensures
        reply@ == database_failure(),
{
    Reply::Failed { message: "Failed to retrieve data from DB.".to_owned() }
}

/// Hands the raw data of a result out as a text file.
pub fn download_raw_data(id: u32, found: Option<String>) -> (reply: Reply)
    ensures
        reply@ == raw_data_reply(id as nat, found.deep_view()),
{
    match found {
        Some(raw_data) => Reply::File {
            content_type: "text/txt; charset=utf-8".to_owned(),
            content_disposition: file_name(id, "_raw_data.txt\""),
            content: raw_data,
        },
        None => failed_database(),
    }
}

/// Hands the notebook of a result out, where it has one.
pub fn download_jupyter(id: u32, found: Option<Option<String>>) -> (reply: Reply)
    ensures
        reply@ == jupyter_reply(id as nat, found.deep_view()),
{
    match found {
        Some(Some(notebook)) => Reply::File {
            content_type: "text/json; charset=utf-8".to_owned(),
            content_disposition: file_name(id, "_jupyter.ipynb\""),
            content: notebook,
        },
        Some(None) => Reply::NotFound,
        None => failed_database(),
    }
}

fn page(rendered: Option<Result<String, String>>, complaint: &str) -> (reply: Reply)
    ensures
        reply@ == page_reply(
            match rendered {
                Some(Ok(html)) => Some(Ok(html@)),
                Some(Err(reason)) => Some(Err(reason@)),
                None => None,
            },
            complaint@,
        ),
{
    match rendered {
        Some(Ok(html)) => Reply::Page { html },
        Some(Err(reason)) => {
            let mut message = complaint.to_owned();
            message.append(reason.as_str());
            message.append(".");
            Reply::Failed { message }
        },
        None => failed_database(),
    }
}

/// The page that lists the results.
pub fn render_list_benchmark_results(rendered: Option<Result<String, String>>) -> (reply: Reply)
    ensures
        reply@ == page_reply(
            match rendered {
                Some(Ok(html)) => Some(Ok(html@)),
                Some(Err(reason)) => Some(Err(reason@)),
                None => None,
            },
            "Failed to render Benchmark list template: "@,
        ),
{
    page(rendered, "Failed to render Benchmark list template: ")
}

/// The page that shows one result.
pub fn render_benchmark_details(rendered: Option<Result<String, String>>) -> (reply: Reply)
    ensures
        reply@ == page_reply(
            match rendered {
                Some(Ok(html)) => Some(Ok(html@)),
                Some(Err(reason)) => Some(Err(reason@)),
                None => None,
            },
            "Failed to render Benchmark details: "@,
        ),
{
    page(rendered, "Failed to render Benchmark details: ")
}

impl Reply {
    /// The status code that the answer is sent with.
    pub fn status(&self) -> (code: u16)
        ensures
            code == match self {
                Reply::Page { .. } => 200u16,
                Reply::File { .. } => 200u16,
                Reply::NotFound => 404u16,
                Reply::Failed { .. } => 500u16,
            },
    {
        match self {
            Reply::Page { .. } => 200,
            Reply::File { .. } => 200,
            Reply::NotFound => 404,
            Reply::Failed { .. } => 500,
        }
    }
}

} // verus!
