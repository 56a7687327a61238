use novel_harvest::classify::{classify, PageKind};
use novel_harvest::error::Failure;
use novel_harvest::gallery::{fetch_url, get_pic_urls_on_page, image_refs, render_manifest, ImageRef};
use novel_harvest::index::{compose_index_page, index_base, resolve_index};
use novel_harvest::html::Element;
use novel_harvest::numbering::{chapter_file_name, image_file_name, pad3_string};
use novel_harvest::pipeline::{plan_gallery_ids, render_chapter, ChapterState, Event, Run, Stage};
use novel_harvest::text_page::{get_page_text, process_text_page, render_text_page};

fn index_html(cells: &str) -> String {
    format!("<html><body><table><tr>{}</tr></table></body></html>", cells)
}

#[test]
fn index_with_two_cells_lists_both_chapters() {
    let html = index_html(
        "<td class=\"ccss\"><a href=\"1.htm\">Title A</a></td><td class=\"ccss\"><a href=\"2.htm\">Title B</a></td>",
    );
    let page = compose_index_page(&html, "http://example.com/book/").unwrap();
    assert_eq!(page.body, "[Title A](./000.md)\n[Title B](./001.md)\n");
    assert_eq!(page.links.len(), 2);
    assert_eq!(page.links[0].index, 0);
    assert_eq!(page.links[0].title, "Title A");
    assert_eq!(page.links[0].url, "http://example.com/book/1.htm");
    assert_eq!(page.links[1].index, 1);
    assert_eq!(page.links[1].title, "Title B");
    assert_eq!(page.links[1].url, "http://example.com/book/2.htm");
}

#[test]
fn index_cell_without_anchor_is_skipped() {
    let html = index_html(
        "<td class=\"ccss\"><a href=\"a.htm\">One</a></td><td class=\"ccss\">&nbsp;</td><td class=\"ccss\"><a href=\"b.htm\">Two</a></td>",
    );
    let page = compose_index_page(&html, "b/").unwrap();
    assert_eq!(page.body, "[One](./000.md)\n[Two](./001.md)\n");
    assert_eq!(page.links.len(), 2);
    assert_eq!(page.links[1].index, 1);
    assert_eq!(page.links[1].url, "b/b.htm");
}

#[test]
fn index_ignores_cells_of_other_classes() {
    let html = index_html(
        "<td class=\"other\"><a href=\"x.htm\">X</a></td><td class=\"ccss\"><a href=\"y.htm\">Y</a></td>",
    );
    let page = compose_index_page(&html, "").unwrap();
    assert_eq!(page.body, "[Y](./000.md)\n");
    assert_eq!(page.links.len(), 1);
    assert_eq!(page.links[0].url, "y.htm");
}

#[test]
fn index_without_cells_is_malformed() {
    let r = compose_index_page("<html><body><p>nothing</p></body></html>", "u/");
    assert!(matches!(r, Err(Failure::MalformedIndex)));
}

#[test]
fn index_of_cells_without_anchors_is_empty() {
    let html = index_html("<td class=\"ccss\">-</td><td class=\"ccss\"></td>");
    let page = compose_index_page(&html, "u/").unwrap();
    assert_eq!(page.body, "");
    assert!(page.links.is_empty());
}

#[test]
fn index_anchor_without_href_fails() {
    let html = index_html("<td class=\"ccss\"><a>No link</a></td>");
    let r = compose_index_page(&html, "u/");
    assert!(matches!(r, Err(Failure::MissingHref)));
}

#[test]
fn index_takes_first_anchor_of_cell() {
    let html = index_html("<td class=\"ccss\"><a href=\"p.htm\">First</a><a href=\"q.htm\">Second</a></td>");
    let page = compose_index_page(&html, "").unwrap();
    assert_eq!(page.links.len(), 1);
    assert_eq!(page.links[0].title, "First");
    assert_eq!(page.links[0].url, "p.htm");
}

fn anchor(title: &str, href: Option<&str>) -> Option<Element> {
    Some(Element { inner_html: String::new(), text: title.to_string(), attr: href.map(String::from) })
}

#[test]
fn resolve_numbers_anchored_cells_densely() {
    let anchors = vec![None, anchor("a", Some("1")), None, None, anchor("b", Some("2")), anchor("c", Some("3"))];
    let page = resolve_index(&anchors, "x/").unwrap();
    assert_eq!(page.body, "[a](./000.md)\n[b](./001.md)\n[c](./002.md)\n");
    let idx: Vec<usize> = page.links.iter().map(|l| l.index).collect();
    assert_eq!(idx, vec![0, 1, 2]);
    assert_eq!(page.links[2].url, "x/3");
}

#[test]
fn resolve_reports_missing_href() {
    let anchors = vec![anchor("a", Some("1")), anchor("b", None)];
    assert!(matches!(resolve_index(&anchors, "x/"), Err(Failure::MissingHref)));
}

#[test]
fn resolve_of_a_thousand_and_one_cells_pads_to_four_digits() {
    let anchors: Vec<Option<Element>> = (0..1001).map(|i| anchor("t", Some(&format!("{}", i)))).collect();
    let page = resolve_index(&anchors, "").unwrap();
    assert_eq!(page.links.len(), 1001);
    assert!(page.body.ends_with("[t](./999.md)\n[t](./1000.md)\n"));
}

#[test]
fn index_base_drops_index_file() {
    assert_eq!(index_base("http://h/book/index.htm"), "http://h/book/");
    assert_eq!(index_base("http://h/book/"), "http://h/book/");
    assert_eq!(index_base("index.html"), "index.html");
}

#[test]
fn classify_by_marker() {
    assert_eq!(classify("<img class=\"imagecontent\" src=\"a.jpg\">"), PageKind::Gallery);
    assert_eq!(classify("<div id=\"content\">text</div>"), PageKind::Text);
    assert_eq!(classify(""), PageKind::Text);
    assert_eq!(classify("imagecontent"), PageKind::Gallery);
}

#[test]
fn classify_is_repeatable() {
    let page = "<p>some imagecontent here</p>";
    assert_eq!(classify(page), classify(page));
    let other = "<p>plain</p>";
    assert_eq!(classify(other), classify(other));
}

#[test]
fn page_text_of_content_div() {
    let html = "<html><body><div id=\"content\">Hello <b>world</b></div></body></html>";
    assert_eq!(get_page_text(html).unwrap(), "Hello world");
}

#[test]
fn page_text_missing_container() {
    let html = "<html><body><div id=\"other\">x</div></body></html>";
    assert!(matches!(get_page_text(html), Err(Failure::ContentNotFound)));
}

#[test]
fn text_page_first_chapter_links_forward_only() {
    assert_eq!(render_text_page("Body", 0), "Body\n[下一页](001.md)");
}

#[test]
fn text_page_later_chapter_links_both_ways() {
    assert_eq!(render_text_page("Body", 5), "Body\n[上一页](004.md)\n[下一页](006.md)");
    assert_eq!(render_text_page("", 1), "\n[上一页](000.md)\n[下一页](002.md)");
    assert_eq!(render_text_page("x", 999), "x\n[上一页](998.md)\n[下一页](1000.md)");
}

#[test]
fn process_text_page_renders_or_fails() {
    let html = "<div id=\"content\">Chapter</div>";
    assert_eq!(process_text_page(html, 0).unwrap(), "Chapter\n[下一页](001.md)");
    assert!(matches!(process_text_page("<p>no</p>", 3), Err(Failure::ContentNotFound)));
}

#[test]
fn gallery_urls_in_document_order() {
    let html = "<div><img class=\"imagecontent\" src=\"https://i/1.jpg\"><img class=\"other\" src=\"x.jpg\">\
                <img class=\"imagecontent\"><img class=\"imagecontent\" src=\"http://i/2.jpg\"></div>";
    let urls = get_pic_urls_on_page(html).unwrap();
    assert_eq!(urls, vec!["https://i/1.jpg".to_string(), "http://i/2.jpg".to_string()]);
}

#[test]
fn gallery_without_images_is_empty() {
    assert!(get_pic_urls_on_page("<p>none</p>").unwrap().is_empty());
}

#[test]
fn fetch_url_strips_secure_scheme() {
    assert_eq!(fetch_url("https://img.example/a.jpg"), "img.example/a.jpg");
    assert_eq!(fetch_url("http://img.example/a.jpg"), "http://img.example/a.jpg");
    assert_eq!(fetch_url("https://"), "");
}

#[test]
fn image_refs_number_images() {
    let urls = vec!["https://a".to_string(), "b".to_string()];
    let refs = image_refs(3, &urls);
    assert_eq!(refs.len(), 2);
    assert_eq!(refs[1].gallery_id, 3);
    assert_eq!(refs[1].image_index, 1);
    assert_eq!(refs[1].source_url, "b");
    assert_eq!(refs[0].fetch_url(), "a");
    assert_eq!(refs[1].file_name(), "003.001.jpg");
}

#[test]
fn image_ref_names() {
    let r = ImageRef { gallery_id: 12, image_index: 7, source_url: "https://s/x.jpg".to_string() };
    assert_eq!(r.file_name(), "012.007.jpg");
    assert_eq!(r.fetch_url(), "s/x.jpg");
}

#[test]
fn manifest_lists_saved_images_only() {
    let m = render_manifest(0, &vec![true, false, true]);
    assert_eq!(m, "[000.000.jpg](./000.000.jpg)<br>\n[000.002.jpg](./000.002.jpg)<br>\n");
}

#[test]
fn manifest_of_all_failed_is_empty() {
    assert_eq!(render_manifest(4, &vec![false, false]), "");
    assert_eq!(render_manifest(4, &vec![]), "");
}

#[test]
fn manifest_all_saved() {
    assert_eq!(
        render_manifest(1, &vec![true, true]),
        "[001.000.jpg](./001.000.jpg)<br>\n[001.001.jpg](./001.001.jpg)<br>\n"
    );
}

#[test]
fn file_names_are_zero_padded() {
    assert_eq!(pad3_string(0), "000");
    assert_eq!(pad3_string(7), "007");
    assert_eq!(pad3_string(42), "042");
    assert_eq!(pad3_string(123), "123");
    assert_eq!(pad3_string(1234), "1234");
    assert_eq!(chapter_file_name(9), "009.md");
    assert_eq!(image_file_name(0, 10), "000.010.jpg");
}

#[test]
fn gallery_ids_follow_chapter_order() {
    let kinds = vec![PageKind::Text, PageKind::Gallery, PageKind::Text, PageKind::Gallery, PageKind::Gallery];
    assert_eq!(plan_gallery_ids(&kinds), vec![None, Some(0), None, Some(1), Some(2)]);
    assert_eq!(plan_gallery_ids(&vec![]), vec![]);
}

#[test]
fn two_galleries_get_distinct_ids() {
    let ids = plan_gallery_ids(&vec![PageKind::Gallery, PageKind::Gallery]);
    assert_ne!(ids[0], ids[1]);
}

#[test]
fn chapter_state_machine_steps() {
    let s = ChapterState::Pending.step(Event::Advanced);
    assert_eq!(s, ChapterState::Fetched);
    let s = s.step(Event::Advanced).step(Event::Advanced).step(Event::Advanced);
    assert_eq!(s, ChapterState::Written);
    assert_eq!(s.step(Event::Failed(Failure::WriteFailure)), ChapterState::Written);
    let f = ChapterState::Classified.step(Event::Failed(Failure::ContentNotFound));
    assert_eq!(f, ChapterState::Failed { at: Stage::Classified, cause: Failure::ContentNotFound });
    assert_eq!(f.step(Event::Advanced), f);
    assert!(f.is_terminal());
    assert!(!ChapterState::Rendered.is_terminal());
}

#[test]
fn run_isolates_failures_and_counts() {
    let mut run = Run::new(3);
    assert!(!run.is_complete());
    for _ in 0..4 {
        run.record(0, Event::Advanced);
        run.record(2, Event::Advanced);
    }
    run.record(1, Event::Failed(Failure::NetworkError));
    assert_eq!(run.states[0], ChapterState::Written);
    assert_eq!(run.states[1], ChapterState::Failed { at: Stage::Pending, cause: Failure::NetworkError });
    assert_eq!(run.states[2], ChapterState::Written);
    assert!(run.is_complete());
    assert_eq!(run.written_count(), 2);
    assert_eq!(run.failed_count(), 1);
}

#[test]
fn empty_run_is_complete() {
    let run = Run::new(0);
    assert!(run.is_complete());
    assert_eq!(run.written_count(), 0);
}

#[test]
fn failure_severity() {
    assert!(Failure::MalformedIndex.is_fatal());
    assert!(Failure::MissingHref.is_fatal());
    assert!(!Failure::ContentNotFound.is_fatal());
    assert!(!Failure::GalleryMarkerInvalid.is_fatal());
    assert!(!Failure::NetworkError.is_fatal());
    assert!(!Failure::WriteFailure.is_fatal());
}

#[test]
fn example_run_of_text_and_gallery() {
    let html = index_html(
        "<td class=\"ccss\"><a href=\"a.htm\">Title A</a></td><td class=\"ccss\"><a href=\"b.htm\">Title B</a></td>",
    );
    let page = compose_index_page(&html, "http://h/").unwrap();
    assert_eq!(page.body, "[Title A](./000.md)\n[Title B](./001.md)\n");
    let ch0 = "<div id=\"content\">Once upon a time</div>";
    let ch1 = "<img class=\"imagecontent\" src=\"https://i/0.jpg\"><img class=\"imagecontent\" src=\"https://i/1.jpg\">\
               <img class=\"imagecontent\" src=\"https://i/2.jpg\">";
    let kinds = vec![classify(ch0), classify(ch1)];
    assert_eq!(kinds, vec![PageKind::Text, PageKind::Gallery]);
    let ids = plan_gallery_ids(&kinds);
    let doc0 = render_chapter(ch0, 0, ids[0], &vec![]).unwrap();
    assert!(doc0.ends_with("[下一页](001.md)"));
    assert_eq!(get_pic_urls_on_page(ch1).unwrap().len(), 3);
    let doc1 = render_chapter(ch1, 1, ids[1], &vec![true, true, false]).unwrap();
    assert_eq!(doc1, "[000.000.jpg](./000.000.jpg)<br>\n[000.001.jpg](./000.001.jpg)<br>\n");
    assert_eq!(doc1.lines().count(), 2);
}

#[test]
fn rerun_renders_identical_documents() {
    let ch = "<div id=\"content\">Same</div>";
    assert_eq!(render_chapter(ch, 2, None, &vec![]), render_chapter(ch, 2, None, &vec![]));
    assert_eq!(render_manifest(1, &vec![true, false]), render_manifest(1, &vec![true, false]));
}
