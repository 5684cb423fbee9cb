use clean_links::rules::{
    replace_amazon, replace_amazon_search, replace_barticle, replace_btrack, replace_jd,
    replace_twitter, replace_weixin,
};

#[test]
fn remove_all() {
    let mut text = "https://www.bilibili.com/video/BV1Hg411T7fT/?spm_id_from=333.788.recommend_more_video.1&vd_source=425ad7d352481d80617a03327da07da0".to_string();
    replace_btrack(&mut text);
    assert_eq!("https://www.bilibili.com/video/BV1Hg411T7fT/", text);
}

#[test]
fn keep_certain_params() {
    {
        let mut text =
            "https://www.bilibili.com/video/BV114514/?t=123&p=1&spm=1.2212.22321".to_string();
        replace_btrack(&mut text);
        assert_eq!("https://www.bilibili.com/video/BV114514/?t=123&p=1", text);
    }
    {
        let mut text =
            "https://www.bilibili.com/video/BV114514/?t=123&spm=1.2212.22321".to_string();
        replace_btrack(&mut text);
        assert_eq!("https://www.bilibili.com/video/BV114514/?t=123", text);
    }
}

#[test]
fn amazon() {
    assert_eq!(
        "https://www.amazon.com/dp/B00NLZUM36/",
        replace_amazon("https://www.amazon.com/Redragon-S101-Keyboard-Ergonomic-Programmable/dp/B00NLZUM36/ref=sr_1_1?keywords=gaming+keyboard&pd_rd_r=89c237af-e7f2-4af6-b9c4&pd_rd_w=0aaaD&pd_rd_wg=KZWal&pf_rd_p=112312321&pf_rd_r=1233&qid=234231231&qu=eyJxc2MiOinFzcCI6IjYuMjAifQ%3D%3D&sr=8-1"),
    );
    assert_eq!(
        "https://www.amazon.co.jp/dp/B00NLZUM36/",
        replace_amazon("https://www.amazon.co.jp/Redragon-S101-Keyboard-Ergonomic-Programmable/dp/B00NLZUM36/ref=sr_1_1?keywords=gaming+keyboard&pd_rd_r=89c237af-e7f2-4af6-b9c4&pd_rd_w=0aaaD&pd_rd_wg=KZWal&pf_rd_p=112312321&pf_rd_r=1233&qid=234231231&qu=eyJxc2MiOinFzcCI6IjYuMjAifQ%3D%3D&sr=8-1"),
    );
}

#[test]
fn amazon_search() {
    assert_eq!(
        "https://www.amazon.com/s?k=%E4%BD%A0%E5%A5%BD%26+%2B",
        replace_amazon_search("https://www.amazon.com/s?k=%E4%BD%A0%E5%A5%BD%26+%2B&crid=1SHSKHE0RZCED&sprefix=%E4%BD%A0%E5%A5%BD%26+%2B%2Caps%2C1307&ref=nb_sb_noss_2")
    )
}

#[test]
fn replace_barticle_test() {
    assert_eq!(
        "https://www.bilibili.com/read/cv19172625",
        replace_barticle("https://www.bilibili.com/read/mobile/19172625?xxx=114514&asdfasdf=32394239ADSAD-12312aASDASD")
    )
}

#[test]
fn replace_twitter_test() {
    assert_eq!(
        "https://c.vxtwitter.com/Penny_0571/status/1587323246506528769",
        replace_twitter(
            "https://fixupx.com/Penny_0571/status/1587323246506528769?s=20&t=0Mzx3uLKTD-kygDQmaXvFq"
        )
    )
}

#[test]
fn replace_weixin_test() {
    let text = "https://mp.weixin.qq.com/s?__biz=MzIzzMwNjc1NzU==&mid=2650309&idx=114514&sn=2fd9d2a3b0b544a6da&chksm=e8de3b77dfa9b2612b676b21f34a75a79994bfcd4a4#rd";
    assert_eq!(
        "https://mp.weixin.qq.com/s?__biz=MzIzzMwNjc1NzU%3D%3D&mid=2650309&idx=114514&sn=2fd9d2a3b0b544a6da#rd",
        replace_weixin(text)
    )
}

#[test]
fn replace_jd_test() {
    assert_eq!(
        "https://item.m.jd.com/product/100026923531.html",
        replace_jd("https://item.m.jd.com/product/100026923531.html?&utm_source=iosapp&utm_medium=appshare&utm_campaign=114514&utm_term=CopyURL&ad_od=share&gx=T2nEPztRx6NTRa30RpDCM")
    )
}

#[test]
fn youtube_keeps_playback_keys() {
    let mut text =
        "https://www.youtube.com/watch?v=dQw4w9WgXcQ&si=abcdef&t=42&feature=share".to_string();
    clean_links::rules::replace_youtube(&mut text);
    assert_eq!("https://www.youtube.com/watch?v=dQw4w9WgXcQ&t=42", text);
}

#[test]
fn youtube_short_host_loses_tracking() {
    let mut text = "see https://youtu.be/watch?si=abcdef".to_string();
    clean_links::rules::replace_youtube(&mut text);
    assert_eq!("see https://youtu.be/watch", text);
}

#[test]
fn bopus_is_shortened() {
    assert_eq!(
        "https://t.bilibili.com/123456789",
        clean_links::rules::replace_bopus("https://m.bilibili.com/opus/123456789?spm=1.2&from=x")
    );
}

#[test]
fn twitter_hosts_all_lead_to_one() {
    let want = "https://c.vxtwitter.com/jack/status/20";
    assert_eq!(want, replace_twitter("https://twitter.com/jack/status/20?s=20"));
    assert_eq!(want, replace_twitter("https://vxtwitter.com/jack/status/20"));
    assert_eq!(want, replace_twitter("https://x.com/jack/status/20?t=abc"));
    assert_eq!(want, replace_twitter("https://www.x.com/jack/status/20"));
    assert_eq!(want, replace_twitter(want));
    assert_eq!(want, clean_links::rules::replace_twitter_x("https://fixupx.com/jack/status/20?s=1"));
}

#[test]
fn twitter_x_leaves_twitter_alone() {
    let text = "https://twitter.com/jack/status/20?s=20";
    assert_eq!(text, clean_links::rules::replace_twitter_x(text));
}

#[test]
fn every_match_is_rewritten() {
    assert_eq!(
        "a https://item.jd.com/product/1.html&&b https://item.m.jd.com/product/22.html&&c",
        replace_jd("a https://item.jd.com/product/1.html?x=1&&b https://item.m.jd.com/product/22.html?y=2&z=3&&c")
    );
    assert_eq!(
        "https://www.bilibili.com/read/cv1 and https://www.bilibili.com/read/cv2.",
        replace_barticle("https://www.bilibili.com/read/mobile/1 and www.bilibili.com/read/mobile/2.")
    );
    assert_eq!(
        "https://c.vxtwitter.com/a/status/1 https://c.vxtwitter.com/b/status/2",
        replace_twitter("https://twitter.com/a/status/1 https://twitter.com/b/status/2")
    );
}

#[test]
fn matches_are_replaced_independently() {
    let mut text = "一 https://www.bilibili.com/video/BV1/?spm=1&p=2&二&https://www.bilibili.com/video/BV2/?t=5&vd_source=x".to_string();
    replace_btrack(&mut text);
    assert_eq!(
        "一 https://www.bilibili.com/video/BV1/?p=2&二&https://www.bilibili.com/video/BV2/?t=5",
        text
    );
}

#[test]
fn a_host_after_a_letter_is_no_match() {
    let text = "https://fakebilibili.com/read/mobile/19172625?xxx=114514";
    assert_eq!(text, replace_barticle(text));
    let text = "myamazon.com/Some-Thing/dp/B00NLZUM36/?tag=1";
    assert_eq!(text, replace_amazon(text));
}

#[test]
fn a_match_that_is_no_url_stays() {
    let mut text = "bilibili.com/video/BV114514/?t=123&spm=1.2212.22321".to_string();
    replace_btrack(&mut text);
    assert_eq!("bilibili.com/video/BV114514/?t=123&spm=1.2212.22321", text);
    let text = "mp.weixin.qq.com/s?__biz=a&chksm=b";
    assert_eq!(text, replace_weixin(text));
}

#[test]
fn text_without_links_is_unchanged() {
    let text = "nothing to see here: a=b&c=d, 你好";
    let mut owned = text.to_string();
    replace_btrack(&mut owned);
    assert_eq!(text, owned);
    clean_links::rules::replace_youtube(&mut owned);
    assert_eq!(text, owned);
    assert_eq!(text, replace_weixin(text));
    assert_eq!(text, replace_jd(text));
    assert_eq!(text, replace_amazon(text));
    assert_eq!(text, replace_amazon_search(text));
    assert_eq!(text, replace_barticle(text));
    assert_eq!(text, clean_links::rules::replace_bopus(text));
    assert_eq!(text, replace_twitter(text));
}

#[test]
fn trim_links_of_one_video() {
    assert_eq!(
        Some("https://www.bilibili.com/video/BV1/?p=3".to_string()),
        clean_links::rules::trim_bili_link("https://www.bilibili.com/video/BV1/?from=a&p=3")
    );
    assert_eq!(
        Some("https://www.youtube.com/watch?list=PL1&index=2".to_string()),
        clean_links::rules::trim_youtube_link("https://www.youtube.com/watch?list=PL1&x=y&index=2")
    );
    assert_eq!(None, clean_links::rules::trim_bili_link("not a link"));
}

#[test]
fn substitute_takes_groups_by_name() {
    assert_eq!(
        "<b>-<a>",
        clean_links::rules::substitute("a-b", r"(?P<x>a)-(?P<y>b)", "<$y>-<$x>")
    );
    assert_eq!("a-b", clean_links::rules::substitute("a-b", r"(unclosed", "x"));
}

#[test]
fn a_query_takes_along_what_follows_it() {
    assert_eq!(
        "https://item.jd.com/product/1.html",
        replace_jd("https://item.jd.com/product/1.html?x=1 and then y=2")
    );
    assert_eq!(
        "https://item.jd.com/product/1.html&then&y=2",
        replace_jd("https://item.jd.com/product/1.html?x=1&then&y=2")
    );
}
