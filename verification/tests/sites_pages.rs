use net_stalker::feed::Channel;
use net_stalker::sites::{
    AistShisan, Akotsu, BuildError, Idwr, Jamstec, Jma, Jscpr, JsppHiroba, Kouan, Memo586, Site,
    SiteKind, Tokushusagi, Windress, Yomoyomo, HMC,
};

fn page(body: &str) -> String {
    format!("<!DOCTYPE html><html><head><title>t</title></head><body>{}</body></html>", body)
}

fn ok(r: Result<Channel, BuildError>) -> Channel {
    match r {
        Ok(c) => c,
        Err(e) => panic!("no feed: {}", e.message()),
    }
}

fn err(r: Result<Channel, BuildError>) -> BuildError {
    match r {
        Ok(_) => panic!("expected an error"),
        Err(e) => e,
    }
}

fn links(c: &Channel) -> Vec<(String, Option<String>, String, bool)> {
    c.items
        .iter()
        .map(|i| (i.title.clone(), i.link.clone(), i.guid.value.clone(), i.guid.permalink))
        .collect()
}

#[test]
fn hmc_lists_titled_seminars() {
    let html = page(
        r#"<div class="list">
          <article class="item"><a href="https://hmc.example/1"><div class="title"><strong>First</strong></div></a></article>
          <article class="item"><a href="https://hmc.example/2"><div class="other">no title</div></a></article>
          <article class="item"><a href="https://hmc.example/3"><div class="title"><strong>Third <b>x</b></strong></div></a></article>
        </div>"#,
    );
    let c = ok(HMC::build_rss(&html));
    assert_eq!(c.title, "東京大学 ヒューマニティーズセンター オープンセミナー");
    assert_eq!(c.language, "ja");
    assert_eq!(c.copyright, " © 2017 The University of Tokyo Humanities Center ");
    assert_eq!(
        links(&c),
        vec![
            ("First".to_string(), Some("https://hmc.example/1".to_string()), "https://hmc.example/1".to_string(), true),
            ("Third <b>x</b>".to_string(), Some("https://hmc.example/3".to_string()), "https://hmc.example/3".to_string(), true),
        ]
    );
    let empty = ok(HMC::build_rss(&page("<p>nothing</p>")));
    assert!(empty.items.is_empty());
    let broken = page(r#"<div class="list"><article class="item"><a><div class="title"><strong>x</strong></div></a></article></div>"#);
    assert!(!HMC::admits(&broken));
    assert!(HMC::admits(&html));
    assert!(matches!(err(HMC::try_build_rss(&broken)), BuildError::MissingLink));
}

#[test]
fn jamstec_prefixes_the_site() {
    let html = page(
        r#"<div class="ly_contentCard_inner"><ul class="page_newsroom_newsLinkWrapper">
          <li><a href="/j/about/press_release/20250101/"><div class="nr_newsLink_body"><div class="nr_newsLink_text">Deep sea</div></div></a></li>
        </ul></div>"#,
    );
    let c = ok(Jamstec::build_rss(&html));
    assert_eq!(
        links(&c),
        vec![(
            "Deep sea".to_string(),
            Some("https://www.jamstec.go.jp/j/about/press_release/20250101/".to_string()),
            "https://www.jamstec.go.jp/j/about/press_release/20250101/".to_string(),
            true
        )]
    );
    assert!(matches!(err(Jamstec::build_rss(&page("<p>x</p>"))), BuildError::NoItems));
    let broken = page(r#"<div class="ly_contentCard_inner"><ul class="page_newsroom_newsLinkWrapper"><li><a>x</a></li></ul></div>"#);
    assert!(!Jamstec::admits(&broken));
    assert!(matches!(err(Jamstec::try_build_rss(&broken)), BuildError::MissingLink));
}

#[test]
fn jma_lists_news_links() {
    let html = page(r##"<div id="news"><a href="/a.html">Rain</a><a href="/b.html">Snow</a></div><a href="/c">out</a>"##);
    let c = ok(Jma::build_rss(&html));
    assert_eq!(c.title, "気象庁");
    assert_eq!(c.copyright, "");
    assert_eq!(c.items.len(), 2);
    assert_eq!(c.items[1].title, "Snow");
    assert_eq!(c.items[1].link.as_deref(), Some("/b.html"));
    assert!(!Jma::admits(&page(r#"<div id="news"><a>x</a></div>"#)));
    assert!(matches!(err(Jma::try_build_rss(&page(r#"<div id="news"><a>x</a></div>"#))), BuildError::MissingLink));
    assert!(ok(Jma::build_rss(&page("<p/>"))).items.is_empty());
}

#[test]
fn memo586_uses_link_text() {
    let html = page(
        r#"<ul class="menu"><li class="linkitem"><a href="p1.html"><span>Note</span> one</a></li>
           <li class="linkitem"><a>skipped</a></li></ul>"#,
    );
    let c = ok(Memo586::build_rss(&html));
    assert_eq!(links(&c), vec![("Note one".to_string(), Some("p1.html".to_string()), "p1.html".to_string(), true)]);
    assert!(matches!(err(Memo586::build_rss(&page("<p/>"))), BuildError::NoItems));
}

#[test]
fn windress_hashes_the_content() {
    let html = page(r#"<div id="content">hello</div>"#);
    let c = ok(Windress::build_rss(&html));
    assert_eq!(c.items.len(), 1);
    assert_eq!(c.items[0].title, "まほー工房 更新");
    assert_eq!(c.items[0].link.as_deref(), Some("https://mahoukoubou.jimdofree.com/"));
    assert_eq!(c.items[0].guid.value, net_stalker::digest::sha256_hex("hello"));
    assert!(c.items[0].guid.permalink);
    assert!(matches!(err(Windress::build_rss(&page("<p/>"))), BuildError::NoItems));
    assert_eq!(
        Windress.user_agent().as_deref(),
        Some("Mozilla/5.0 (Windows NT 10.0; Win64; x64; rv:199.0)")
    );
}

#[test]
fn tokushusagi_needs_titles() {
    let html = page(
        r#"<div class="column-item"><a href="/column/1"><div class="column-content"><p class="column-title">Scam</p></div></a></div>
           <div class="column-item"><a><span>no href</span></a></div>"#,
    );
    let c = ok(Tokushusagi::build_rss(&html));
    assert_eq!(links(&c), vec![("Scam".to_string(), Some("/column/1".to_string()), "/column/1".to_string(), true)]);
    let broken = page(r#"<div class="column-item"><a href="/x"><span>no title</span></a></div>"#);
    assert!(!Tokushusagi::admits(&broken));
    assert!(matches!(err(Tokushusagi::try_build_rss(&broken)), BuildError::MissingTitle));
    assert!(matches!(err(Tokushusagi::build_rss(&page("<p/>"))), BuildError::NoItems));
}

#[test]
fn yomoyomo_takes_first_title_link() {
    let html = page(
        r#"<article class="block1"><p class="block1__title"><a href="https://ww.example/a">Essay</a></p></article>
           <article class="block1"><p>none</p></article>
           <article class="block1"><p class="block1__title"><a>no href</a></p></article>"#,
    );
    let c = ok(Yomoyomo::build_rss(&html));
    assert_eq!(
        links(&c),
        vec![("Essay".to_string(), Some("https://ww.example/a".to_string()), "https://ww.example/a".to_string(), true)]
    );
    assert!(matches!(err(Yomoyomo::build_rss(&page("<p/>"))), BuildError::NoItems));
}

#[test]
fn jscpr_reads_text_after_first_child() {
    let html = page(
        r#"<div id="contents"><a href="/news/1"><dl><dt><span>2025.01.01</span>New year</dt></dl></a>
           <a href="/news/2"><dl><dt><span>only child</span></dt></dl></a></div>"#,
    );
    let c = ok(Jscpr::build_rss(&html));
    assert_eq!(links(&c), vec![("New year".to_string(), Some("/news/1".to_string()), "/news/1".to_string(), true)]);
    assert!(matches!(err(Jscpr::build_rss(&page("<p/>"))), BuildError::NoItems));
}

#[test]
fn aist_joins_cells() {
    let html = page(
        r#"<div id="infoCMScontents_14139"><table><tbody>
           <tr><th>No</th><th>Name</th></tr>
           <tr><td>R7-1</td><td>Microscope</td><td>Tsukuba</td><td>2025/1/31</td></tr>
           </tbody></table></div>"#,
    );
    let c = ok(AistShisan::build_rss(&html));
    assert_eq!(
        links(&c),
        vec![(
            "Microscope / Tsukuba / 2025/1/31".to_string(),
            Some("https://www.aist.go.jp/aist_j/procure/asset/jyuyou.html".to_string()),
            "R7-1".to_string(),
            true
        )]
    );
    let short = page(r#"<div id="infoCMScontents_14139"><table><tbody><tr><td>a</td><td>b</td></tr></tbody></table></div>"#);
    assert!(!AistShisan::admits(&short));
    assert!(matches!(err(AistShisan::try_build_rss(&short)), BuildError::MissingCells));
    assert!(matches!(err(AistShisan::build_rss(&page("<p/>"))), BuildError::NoItems));
}

#[test]
fn kouan_reads_first_news_list() {
    let html = page(r#"<ul class="newsList"><li><a href="/psia/a.html">Report</a></li><li><a>plain</a></li></ul>"#);
    let c = ok(Kouan::build_rss(&html));
    assert_eq!(c.items.len(), 2);
    assert_eq!(c.items[0].title, "Report");
    assert_eq!(c.items[0].link.as_deref(), Some("https://www.moj.go.jp/psia/a.html"));
    assert_eq!(c.items[0].guid.value, net_stalker::digest::sha384_hex(r#"<a href="/psia/a.html">Report</a>"#));
    assert!(!c.items[0].guid.permalink);
    assert_eq!(c.items[1].link, None);
    assert!(matches!(err(Kouan::build_rss(&page("<p/>"))), BuildError::NewsNotFound));
}

#[test]
fn akotsu_prefixes_blog_address() {
    let html = page(r#"<div id="contents"><article><h2><a href="post-1/">Frogs</a></h2></article></div>"#);
    let c = ok(Akotsu::build_rss(&html));
    assert_eq!(
        links(&c),
        vec![("Frogs".to_string(), Some("https://akotsu.com/blog/post-1/".to_string()), "https://akotsu.com/blog/post-1/".to_string(), true)]
    );
    assert!(matches!(err(Akotsu::build_rss(&page(r#"<div id="contents"></div>"#))), BuildError::NoItems));
    assert!(matches!(err(Akotsu::build_rss(&page("<p/>"))), BuildError::NewsNotFound));
}

#[test]
fn jspp_prefixes_society_address() {
    let html = page(
        r#"<div class="left"><table><tbody><tr><td><a href="hiroba/q_and_a/detail.html?id=1">Why green?</a></td></tr></tbody></table></div>"#,
    );
    let c = ok(JsppHiroba::build_rss(&html));
    assert_eq!(
        links(&c),
        vec![(
            "Why green?".to_string(),
            Some("https://jspp.org/hiroba/q_and_a/detail.html?id=1".to_string()),
            "https://jspp.org/hiroba/q_and_a/detail.html?id=1".to_string(),
            true
        )]
    );
    assert!(matches!(err(JsppHiroba::build_rss(&page("<p/>"))), BuildError::NewsNotFound));
}

#[test]
fn idwr_resolves_links_against_the_page() {
    let url = "https://id-info.jihs.go.jp/surveillance/idwr/jp/idwr/2025/index.html";
    let html = page(
        r#"<div><p><a class="sizeview" href="orphan.pdf">no heading</a></p></div>
           <h3>Week 1</h3><p><a class="sizeview" href="idwr2025-01.pdf">PDF</a></p>"#,
    );
    let c = ok(Idwr::build_rss(url, &html));
    assert_eq!(
        links(&c),
        vec![(
            "Week 1".to_string(),
            Some("https://id-info.jihs.go.jp/surveillance/idwr/jp/idwr/2025/idwr2025-01.pdf".to_string()),
            "https://id-info.jihs.go.jp/surveillance/idwr/jp/idwr/2025/idwr2025-01.pdf".to_string(),
            true
        )]
    );
    assert!(matches!(err(Idwr::build_rss(url, &page("<p/>"))), BuildError::NoItems));
    match err(Idwr::build_rss("not a url", &html)) {
        BuildError::InvalidUrl(m) => assert_eq!(m, "relative URL without a base"),
        _ => panic!("expected an URL error"),
    }
}

#[test]
fn idwr_page_follows_the_year_in_japan() {
    // 2024-12-31T15:00:00Z is midnight of 2025-01-01 in Japan.
    assert_eq!(
        Idwr.page_url(1_735_657_200).as_deref(),
        Some("https://id-info.jihs.go.jp/surveillance/idwr/jp/idwr/2025/index.html")
    );
    assert_eq!(
        Idwr.page_url(1_735_657_199).as_deref(),
        Some("https://id-info.jihs.go.jp/surveillance/idwr/jp/idwr/2024/index.html")
    );
    assert_eq!(Idwr.page_url(i64::MAX), None);
}

#[test]
fn feed_renders_rss() {
    let html = page(r##"<div id="news"><a href="https://jma.example/a">Rain &amp; wind</a></div>"##);
    let xml = SiteKind::Jma.feed("https://www.jma.go.jp/jma/index.html", &html).unwrap();
    assert!(xml.contains("<rss"), "{}", xml);
    assert!(xml.contains("<title>気象庁</title>"), "{}", xml);
    assert!(xml.contains("<language>ja</language>"), "{}", xml);
    assert!(xml.contains("<title>Rain &amp;amp; wind</title>"), "{}", xml);
    assert!(xml.contains("<link>https://jma.example/a</link>"), "{}", xml);
    assert!(xml.contains("https://jma.example/a</guid>"), "{}", xml);
    let broken = page(r#"<div id="news"><a>no link</a></div>"#);
    assert!(!SiteKind::Jma.admits("https://www.jma.go.jp/jma/index.html", &broken));
    assert!(SiteKind::Jma.admits("https://www.jma.go.jp/jma/index.html", &html));
    assert!(SiteKind::Memo586.admits("https://fesix.sakura.ne.jp/notepad/", &broken));
    let e = SiteKind::Memo586.feed("https://fesix.sakura.ne.jp/notepad/", &page("<p/>")).unwrap_err();
    assert_eq!(e, "No items!");
}

#[test]
fn sites_name_their_pages() {
    assert_eq!(SiteKind::HMC.page_url(0).as_deref(), Some("https://hmc.u-tokyo.ac.jp/ja/open-seminar/"));
    assert_eq!(SiteKind::Kouan.page_url(0).as_deref(), Some("https://www.moj.go.jp/psia/index.html"));
    assert_eq!(SiteKind::Jscpr.page_url(0).as_deref(), Some("http://www.jscpr.org/news"));
    assert_eq!(SiteKind::Kouan.user_agent(), None);
    assert_eq!(SiteKind::Windress.user_agent().as_deref(), Some("Mozilla/5.0 (Windows NT 10.0; Win64; x64; rv:199.0)"));
}

#[test]
fn windress_feed_follows_content_only() {
    let a = ok(Windress::build_rss(&page(r#"<header>old banner</header><div id="content"><p>news</p></div>"#)));
    let b = ok(Windress::build_rss(&page(r#"<header>new banner</header><div id="content"><p>news</p></div>"#)));
    let c = ok(Windress::build_rss(&page(r#"<div id="content"><p>fresh news</p></div>"#)));
    assert_eq!(links(&a), links(&b));
    assert_ne!(links(&a), links(&c));
}
