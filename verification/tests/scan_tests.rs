use gdpm::downloader::scan::{folders, has_file_links, listing_links_of, version_names, MirrorScan};
use gdpm::types::version::{GodotVersion, GodotVersionKind, SystemVersion};

fn page(links: &[&str]) -> String {
    let mut html = String::from("<html><body><table>");
    for l in links {
        html.push_str(&format!("<tr><td class=\"n\"><a href=\"{}\">{}</a></td></tr>", l, l));
    }
    html.push_str("</table></body></html>");
    html
}

#[test]
fn test_listing_links() {
    let links = listing_links_of(&page(&["../", "3.0/", "2.1/", "4.2/", "README.txt"]));
    assert_eq!(
        links,
        vec![
            Some("../".to_string()),
            Some("3.0/".to_string()),
            Some("2.1/".to_string()),
            Some("4.2/".to_string()),
            Some("README.txt".to_string())
        ]
    );
    assert_eq!(version_names(&links), vec!["3.0".to_string(), "4.2".to_string()]);
    assert_eq!(folders(&links), vec!["..".to_string(), "3.0".to_string(), "2.1".to_string(), "4.2".to_string()]);
    assert!(has_file_links(&links));
}

#[test]
fn test_mirror_scan() {
    let sys = SystemVersion::LinuxX64;
    let mut scan = MirrorScan::new("https://m/", sys, &vec!["3.0".to_string()]);
    let mut fetched = Vec::new();
    while let Some(url) = scan.next_fetch() {
        let html = match url.as_str() {
            "https://m/3.0/" => page(&["mono/", "rc1/", "Godot_v3.0-stable_x11.64.zip"]),
            "https://m/3.0/mono/" => page(&["Godot_v3.0-stable_mono_x11_64.zip"]),
            "https://m/3.0/rc1/" => page(&["mono/", "Godot_v3.0-rc1_x11.64.zip"]),
            "https://m/3.0/rc1/mono/" => page(&["Godot_v3.0-rc1_mono_x11_64.zip"]),
            other => panic!("unexpected url {}", other),
        };
        fetched.push(url);
        scan.feed(&listing_links_of(&html));
    }
    assert_eq!(fetched, vec!["https://m/3.0/", "https://m/3.0/mono/", "https://m/3.0/rc1/", "https://m/3.0/rc1/mono/"]);
    assert_eq!(
        scan.into_versions(),
        vec![
            GodotVersion::new("3.0", GodotVersionKind::Stable, sys, true),
            GodotVersion::new("3.0", GodotVersionKind::ReleaseCandidate(1), sys, true),
            GodotVersion::new("3.0", GodotVersionKind::ReleaseCandidate(1), sys, false),
            GodotVersion::new("3.0", GodotVersionKind::Stable, sys, false),
        ]
    );
}

#[test]
fn test_scan() {
    let sys = SystemVersion::LinuxX64;
    let listing = |url: &str| -> String {
        let body = match url {
            "https://localhost/" => r#"<td class="n"><a href="3.0.0/"></a></td>"#,
            "https://localhost/3.0.0/" => {
                r#"<td class="n"><a href="mono/"></a></td>
                <td class="n"><a href="rc/"></a></td>
                <td class="n"><a href="alpha1/"></a></td>
                <td class="n"><a href="beta2/"></a></td>
                <td class="n"><a href="sample"></a></td>"#
            },
            "https://localhost/3.0.0/mono/" => r#"<td class="n"><a href="sample"></a></td>"#,
            "https://localhost/3.0.0/rc/" => r#"<td class="n"><a href="sample"></a></td>"#,
            "https://localhost/3.0.0/alpha1/" => {
                r#"<td class="n"><a href="mono/"></a></td>
                <td class="n"><a href="sample"></a></td>"#
            },
            "https://localhost/3.0.0/alpha1/mono/" => r#"<td class="n"><a href="sample"></a></td>"#,
            "https://localhost/3.0.0/beta2/" => r#"<td class="n"><a href="sample"></a></td>"#,
            other => panic!("unexpected url {}", other),
        };
        format!("<table>\n{}\n</table>", body)
    };

    let root = listing_links_of(&listing("https://localhost/"));
    let names = version_names(&root);
    let mut scan = MirrorScan::new("https://localhost/", sys, &names);
    while let Some(url) = scan.next_fetch() {
        let links = listing_links_of(&listing(&url));
        assert!(scan.accepts(&links));
        scan.feed(&links);
    }
    assert_eq!(
        scan.into_versions(),
        vec![
            GodotVersion::new("3.0.0", GodotVersionKind::Stable, sys, true),
            GodotVersion::new("3.0.0", GodotVersionKind::ReleaseCandidate(0), sys, false),
            GodotVersion::new("3.0.0", GodotVersionKind::Alpha(1), sys, true),
            GodotVersion::new("3.0.0", GodotVersionKind::Alpha(1), sys, false),
            GodotVersion::new("3.0.0", GodotVersionKind::Beta(2), sys, false),
            GodotVersion::new("3.0.0", GodotVersionKind::Stable, sys, false),
        ]
    );
}
