use benchmark_operator::browser::{
    decimal_text, download_jupyter, download_raw_data, render_benchmark_details,
    render_list_benchmark_results, Reply,
};

fn failed() -> Reply {
    Reply::Failed { message: "Failed to retrieve data from DB.".to_string() }
}

#[test]
fn numbers_are_written_in_decimal_digits() {
    assert_eq!(decimal_text(0), "0");
    assert_eq!(decimal_text(7), "7");
    assert_eq!(decimal_text(10), "10");
    assert_eq!(decimal_text(1234567890), "1234567890");
    assert_eq!(decimal_text(u32::MAX), "4294967295");
    for number in [9u32, 11, 99, 100, 101, 1000, 90210, 4000000000] {
        assert_eq!(decimal_text(number), number.to_string());
    }
}

#[test]
fn raw_data_is_handed_out_as_a_text_file() {
    let reply = download_raw_data(42, Some("Run 1\n".to_string()));
    assert_eq!(
        reply,
        Reply::File {
            content_type: "text/txt; charset=utf-8".to_string(),
            content_disposition: "attachment; filename=\"benchmark_42_raw_data.txt\"".to_string(),
            content: "Run 1\n".to_string(),
        }
    );
    assert_eq!(reply.status(), 200);
}

#[test]
fn a_notebook_is_handed_out_where_there_is_one() {
    let reply = download_jupyter(7, Some(Some("{}".to_string())));
    assert_eq!(
        reply,
        Reply::File {
            content_type: "text/json; charset=utf-8".to_string(),
            content_disposition: "attachment; filename=\"benchmark_7_jupyter.ipynb\"".to_string(),
            content: "{}".to_string(),
        }
    );
    assert_eq!(reply.status(), 200);
    let reply = download_jupyter(7, Some(None));
    assert_eq!(reply, Reply::NotFound);
    assert_eq!(reply.status(), 404);
}

#[test]
fn a_database_that_cannot_be_asked_is_a_failure_of_the_server() {
    assert_eq!(download_raw_data(1, None), failed());
    assert_eq!(download_jupyter(1, None), failed());
    assert_eq!(render_list_benchmark_results(None), failed());
    assert_eq!(render_benchmark_details(None), failed());
    assert_eq!(failed().status(), 500);
}

#[test]
fn a_page_is_answered_as_rendered() {
    let reply = render_list_benchmark_results(Some(Ok("<html></html>".to_string())));
    assert_eq!(reply, Reply::Page { html: "<html></html>".to_string() });
    assert_eq!(reply.status(), 200);
    let reply = render_benchmark_details(Some(Ok("<p>one</p>".to_string())));
    assert_eq!(reply, Reply::Page { html: "<p>one</p>".to_string() });
}

#[test]
fn a_page_that_cannot_be_rendered_says_why() {
    assert_eq!(
        render_list_benchmark_results(Some(Err("no such field".to_string()))),
        Reply::Failed {
            message: "Failed to render Benchmark list template: no such field.".to_string()
        }
    );
    assert_eq!(
        render_benchmark_details(Some(Err("no such field".to_string()))),
        Reply::Failed { message: "Failed to render Benchmark details: no such field.".to_string() }
    );
}
