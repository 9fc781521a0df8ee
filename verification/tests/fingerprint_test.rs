use meclipboard::fingerprint::{frame_bytes, image_hash, image_path, stored_image_path};

#[test]
fn frame_appends_little_endian_size() {
    assert_eq!(frame_bytes(&[9, 8], 1, 258), vec![9, 8, 1, 0, 0, 0, 2, 1, 0, 0]);
    assert_eq!(
        frame_bytes(&[], 0x01020304, 0xffffffff),
        vec![4, 3, 2, 1, 255, 255, 255, 255]
    );
}

#[test]
fn hash_of_known_frames() {
    assert_eq!(
        image_hash(&[1, 2, 3, 4], 1, 1),
        "e2056a4167d8d2aabc757f2ad11c6d912de7d4a628684c4717703a30e45ca393"
    );
    assert_eq!(
        image_hash(&[255; 8], 2, 1),
        "adcf21f1d5528980edadb4e6e486ed62a1ebea94c908625e593667ba013d2419"
    );
    assert_eq!(
        image_hash(&[0, 0, 0, 0], 1, 256),
        "3705c7227863a38b338cf4f36191635f97d9d031874a2b092409148b76862683"
    );
}

#[test]
fn path_is_hash_with_png_suffix_in_images_folder() {
    let path = image_path(&[1, 2, 3, 4], 1, 1);
    assert_eq!(path, "images/e2056a4167d8d2aabc757f2ad11c6d912de7d4a628684c4717703a30e45ca393.png");
    assert_eq!(path, format!("images/{}.png", image_hash(&[1, 2, 3, 4], 1, 1)));
    assert_eq!(stored_image_path("x.png"), "images/x.png");
}

#[test]
fn size_is_part_of_the_fingerprint() {
    let pixels = [7u8; 16];
    assert_ne!(image_hash(&pixels, 2, 2), image_hash(&pixels, 4, 1));
}
