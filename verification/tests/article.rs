use dayz_community_hub_core::article::{decode_entity, interleave_pieces, picture_img};
use dayz_community_hub_core::news::{Article, ArticleCategory};

fn article(content: Option<&str>) -> Article {
    Article {
        id: 7,
        title: "T".to_string(),
        slug: "some slug".to_string(),
        excerpt: None,
        content: content.map(|s| s.to_string()),
        version: None,
        image: None,
        published_at: Some("2026-02-05T00:30:00.000Z".to_string()),
        category: Some(ArticleCategory { name: "Status Report".to_string(), slug: "status-report".to_string() }),
        author: None,
    }
}

#[test]
fn pictures_become_images() {
    let a = article(Some(
        r#"<p>Hi</p><app-picture code="abc" thumb-sizes="1920,1280,640,320" thumb-formats="png,webp"></app-picture><p>x</p>"#,
    ));
    assert_eq!(
        a.content_html(),
        r#"<p>Hi</p><img src="https://dayz.com/app-static/uploads/abc_640.webp" data-full="https://dayz.com/app-static/uploads/abc.png" alt="" loading="lazy" /><p>x</p>"#
    );
}

#[test]
fn picture_defaults_without_size_and_format() {
    let a = article(Some(r#"<app-picture code="z1">  </app-picture>"#));
    assert_eq!(
        a.content_html(),
        r#"<img src="https://dayz.com/app-static/uploads/z1_640.webp" data-full="https://dayz.com/app-static/uploads/z1.webp" alt="" loading="lazy" />"#
    );
}

#[test]
fn empty_content_gives_empty_html_and_text() {
    assert_eq!(article(None).content_html(), "");
    assert_eq!(article(Some("")).content_html(), "");
    assert_eq!(article(None).html_to_text(), "");
    assert_eq!(article(Some("")).html_to_text(), "");
}

#[test]
fn picture_image_picks_sizes_and_formats() {
    assert_eq!(
        picture_img("c", "1000, 700 ,x", " png , jpg "),
        r#"<img src="https://dayz.com/app-static/uploads/c_700.png" data-full="https://dayz.com/app-static/uploads/c.png" alt="" loading="lazy" />"#
    );
    assert_eq!(
        picture_img("c", "320,480", "jpeg"),
        r#"<img src="https://dayz.com/app-static/uploads/c_480.jpeg" data-full="https://dayz.com/app-static/uploads/c.jpeg" alt="" loading="lazy" />"#
    );
    assert_eq!(
        picture_img("c", "x", "jpeg,webp"),
        r#"<img src="https://dayz.com/app-static/uploads/c_640.webp" data-full="https://dayz.com/app-static/uploads/c.jpeg" alt="" loading="lazy" />"#
    );
}

#[test]
fn html_becomes_plain_text() {
    let a = article(Some(
        "<h1>Title</h1><p>A &amp; B &lt;3&gt; &#169; &mdash; end</p><br><br><br><br><span>x</span>",
    ));
    assert_eq!(a.html_to_text(), "Title\n\nA & B <3>  \u{2014} end\n\nx");
}

#[test]
fn entities_decode_in_one_pass() {
    let a = article(Some("&amp;lt; &nbsp;&ndash;&quot;&apos;"));
    assert_eq!(a.html_to_text(), "&lt;  \u{2013}\"'");
    assert_eq!(decode_entity("&gt;"), ">");
    assert_eq!(decode_entity("&#12;"), "");
}

#[test]
fn pieces_interleave() {
    let gaps: Vec<String> = vec!["a".into(), "b".into(), "c".into()];
    let reps: Vec<String> = vec!["1".into(), "2".into()];
    assert_eq!(interleave_pieces(&gaps, &reps), "a1b2c");
    assert_eq!(interleave_pieces(&vec!["only".to_string()], &vec![]), "only");
}

#[test]
fn article_date_and_url() {
    let a = article(None);
    assert_eq!(a.date(), "2026-02-05");
    assert_eq!(a.url(), "https://dayz.com/article/status-report/some%20slug");
    let mut b = article(None);
    b.category = None;
    b.published_at = Some("2026".to_string());
    assert_eq!(b.date(), "");
    assert_eq!(b.url(), "https://dayz.com/article/news/some%20slug");
}
