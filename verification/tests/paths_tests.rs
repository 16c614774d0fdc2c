use bp_core::paths::{
    file_path_from_relative_url, full_media_url_from_relative_path, generate_save_path,
    media_file_path, media_root_relative, path_to_absolute_media_url_optional,
    path_to_full_media_url, path_to_relative_media_url, png_target_filename,
    relative_media_url_from_full_path, split_components, ForImage, PathError,
};

#[test]
fn test_full_media_url_from_relative_path() {
    let scheme = "https";
    let host = "example.com";
    let relative_url = "media/img.jpg";

    let expected = "https://example.com/media/img.jpg".to_string();
    let result = full_media_url_from_relative_path(scheme, host, relative_url);
    assert_eq!(expected, result);
}

#[test]
fn test_file_path_from_relative_url() {
    let path = "/var/www/public/example.com/media/";
    let base_relative_url = "media/example.txt";

    let expected = "/var/www/public/example.com/media/example.txt".to_string();
    let result = file_path_from_relative_url(path, base_relative_url);
    assert_eq!(expected, result);

    let path = "/media/";
    let base_relative_url = "media/example.txt";

    let expected = "/media/example.txt".to_string();
    let result = file_path_from_relative_url(path, base_relative_url);
    assert_eq!(expected, result);
}

#[test]
fn test_relative_media_url_from_full_path() {
    let media_root = "/var/www/public/example.com/media/";
    let full_path = "/var/www/public/example.com/media/example.txt";

    let relative_url = relative_media_url_from_full_path(media_root, full_path);
    assert_eq!("media/example.txt".to_string(), relative_url);
}

#[test]
fn relative_media_url_no_overlap_keeps_path() {
    let relative_url = relative_media_url_from_full_path("other", "/a/b.txt");
    assert_eq!("/a/b.txt".to_string(), relative_url);
}

#[test]
fn path_to_relative_media_url_prefixes_media_url() {
    let r = path_to_relative_media_url("media", "images/apple.png");
    assert_eq!("/media/images/apple.png".to_string(), r);
}

#[test]
fn path_to_full_media_url_includes_host() {
    let r = path_to_full_media_url("media", "https://example.com", "images/apple.png");
    assert_eq!("https://example.com/media/images/apple.png".to_string(), r);
}

#[test]
fn path_to_absolute_media_url_optional_maps_none() {
    let r = path_to_absolute_media_url_optional("media", "https://example.com", &None);
    assert!(r.is_none());
    let r = path_to_absolute_media_url_optional(
        "media",
        "https://example.com",
        &Some("images/apple.png".to_string()),
    );
    assert_eq!(Some("https://example.com/media/images/apple.png".to_string()), r);
}

#[test]
fn media_file_path_joins_root() {
    let r = media_file_path("/var/www/media", "images/apple.png");
    assert_eq!("/var/www/media/images/apple.png".to_string(), r);
}

#[test]
fn media_root_relative_strips_root() {
    let r = media_root_relative("/srv/media/", "/srv/media/a/b.png");
    assert_eq!(Ok("a/b.png".to_string()), r);

    let r = media_root_relative("/srv/media", "/srv/media/a/b.png");
    assert_eq!(Ok("a/b.png".to_string()), r);

    let r = media_root_relative("/srv/media", "/other/a.png");
    assert_eq!(Err(PathError::NotUnderMediaRoot), r);
}

#[test]
fn png_target_filename_replaces_extension() {
    assert_eq!("photo.png".to_string(), png_target_filename("photo.jpg"));
    assert_eq!("photo.png".to_string(), png_target_filename("photo"));
    assert_eq!("a.b.png".to_string(), png_target_filename("a.b.jpeg"));
    // a dot in first position is a dotfile's name, not an extension
    assert_eq!(".bashrc.png".to_string(), png_target_filename(".bashrc"));
}

#[test]
fn generate_save_path_layout() {
    let key = "0b0f7df4-7cbe-4f83-960e-e514e46a7d4f";
    let for_image = ForImage::TransparentImage(key.to_string(), "img.png".to_string());
    let r = generate_save_path("/srv/media", &for_image);
    assert_eq!(
        format!("/srv/media/background-remover/{}/transparent/img.png", key),
        r
    );

    let for_image = ForImage::OriginalImage(key.to_string(), "img.jpg".to_string());
    let r = generate_save_path("/srv/media", &for_image);
    assert_eq!(
        format!("/srv/media/background-remover/{}/original/img.jpg", key),
        r
    );
}

#[test]
fn split_components_handles_root_and_runs() {
    let comps = split_components("/a//b/");
    let expected: Vec<String> =
        vec!["/".to_string(), "a".to_string(), "b".to_string()];
    assert_eq!(expected, comps);
    let comps = split_components("a/b");
    let expected: Vec<String> = vec!["a".to_string(), "b".to_string()];
    assert_eq!(expected, comps);
}
