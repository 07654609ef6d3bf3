use pkg_browser::backend::PackageManager;
use pkg_browser::catalog::PackageList;
use pkg_browser::parser::parse_listing;

#[test]
fn empty_output_parses_to_empty_catalog_pkg() {
    let list = PackageList::load(PackageManager::Pkg, "");
    assert_eq!(list.items.len(), 0);
    assert_eq!(list.selected, None);
}

#[test]
fn empty_output_parses_to_empty_catalog_apt() {
    let list = PackageList::load(PackageManager::Apt, "");
    assert_eq!(list.items.len(), 0);
    assert_eq!(list.selected, None);
}

#[test]
fn empty_output_parses_to_empty_catalog_pip() {
    let list = PackageList::load(PackageManager::Pip, "");
    assert_eq!(list.items.len(), 0);
    assert_eq!(list.selected, None);
}

#[test]
fn pip_listing_with_header_and_separator() {
    let items = parse_listing(
        PackageManager::Pip,
        "Package    Version\n------- -------\nrequests 2.31.0\n",
    );
    assert_eq!(items.len(), 1);
    assert_eq!(items[0].name, "requests");
    assert_eq!(items[0].version, "2.31.0");
}

#[test]
fn pip_header_row_alone_is_dropped() {
    let items = parse_listing(PackageManager::Pip, "Package    Version");
    assert_eq!(items.len(), 0);
}

#[test]
fn pip_extra_columns_are_ignored() {
    let items = parse_listing(PackageManager::Pip, "requests 2.31.0 extra stuff\n");
    assert_eq!(items.len(), 1);
    assert_eq!(items[0].name, "requests");
    assert_eq!(items[0].version, "2.31.0");
}

#[test]
fn pip_single_column_is_dropped() {
    let items = parse_listing(PackageManager::Pip, "requests\n");
    assert_eq!(items.len(), 0);
}

#[test]
fn pip_blank_lines_around_record_are_ignored() {
    let items = parse_listing(PackageManager::Pip, "\n\nrequests 2.31.0\n\n");
    assert_eq!(items.len(), 1);
    assert_eq!(items[0].name, "requests");
    assert_eq!(items[0].version, "2.31.0");
}

#[test]
fn pkg_line_splits_on_first_slash() {
    let items = parse_listing(PackageManager::Pkg, "htop/stable");
    assert_eq!(items.len(), 1);
    assert_eq!(items[0].name, "htop");
    assert_eq!(items[0].version, "stable");
}

#[test]
fn pkg_version_is_second_slash_segment_verbatim() {
    let items = parse_listing(PackageManager::Pkg, "a/b/c\n");
    assert_eq!(items.len(), 1);
    assert_eq!(items[0].name, "a");
    assert_eq!(items[0].version, "b");
}

#[test]
fn pkg_empty_version_segment_is_kept() {
    let items = parse_listing(PackageManager::Pkg, "a/\n");
    assert_eq!(items.len(), 1);
    assert_eq!(items[0].name, "a");
    assert_eq!(items[0].version, "");
}

#[test]
fn pkg_crlf_line_endings_are_stripped() {
    let items = parse_listing(PackageManager::Pkg, "htop/stable\r\nvim/8.2\r\n");
    assert_eq!(items.len(), 2);
    assert_eq!(items[0].name, "htop");
    assert_eq!(items[0].version, "stable");
    assert_eq!(items[1].name, "vim");
    assert_eq!(items[1].version, "8.2");
}

#[test]
fn pkg_final_line_without_newline_keeps_carriage_return() {
    let items = parse_listing(PackageManager::Pkg, "a/b\r");
    assert_eq!(items.len(), 1);
    assert_eq!(items[0].version, "b\r");
}

#[test]
fn pkg_line_without_slash_is_dropped() {
    let items = parse_listing(PackageManager::Pkg, "htop\n");
    assert_eq!(items.len(), 0);
}

#[test]
fn pkg_mixed_lines_keep_order_and_skip_bad_ones() {
    let items = parse_listing(PackageManager::Pkg, "a/1\nnope\nb/2\n");
    assert_eq!(items.len(), 2);
    assert_eq!(items[0].name, "a");
    assert_eq!(items[0].version, "1");
    assert_eq!(items[1].name, "b");
    assert_eq!(items[1].version, "2");
}

#[test]
fn pkg_duplicate_names_are_not_deduplicated() {
    let items = parse_listing(PackageManager::Pkg, "dup/1\ndup/2\n");
    assert_eq!(items.len(), 2);
    assert_eq!(items[0].name, "dup");
    assert_eq!(items[0].version, "1");
    assert_eq!(items[1].name, "dup");
    assert_eq!(items[1].version, "2");
}

#[test]
fn apt_version_is_first_token_of_second_field() {
    let items = parse_listing(PackageManager::Apt, "vim/stable 2:8.2.0 amd64 [installed]");
    assert_eq!(items.len(), 1);
    assert_eq!(items[0].name, "vim");
    assert_eq!(items[0].version, "stable");
}

#[test]
fn apt_plain_version_after_slash() {
    let items = parse_listing(PackageManager::Apt, "vim/2:8.2.0 amd64 [installed]\n");
    assert_eq!(items.len(), 1);
    assert_eq!(items[0].name, "vim");
    assert_eq!(items[0].version, "2:8.2.0");
}

#[test]
fn apt_line_without_slash_is_dropped() {
    let items = parse_listing(PackageManager::Apt, "Listing... Done\n");
    assert_eq!(items.len(), 0);
}

#[test]
fn apt_empty_version_token_is_dropped() {
    let items = parse_listing(PackageManager::Apt, "vim/ 2.0\n");
    assert_eq!(items.len(), 0);
}

#[test]
fn apt_second_field_stops_at_second_slash() {
    let items = parse_listing(PackageManager::Apt, "foo/bar/baz 1.0\n");
    assert_eq!(items.len(), 1);
    assert_eq!(items[0].name, "foo");
    assert_eq!(items[0].version, "bar");
}
