use cargo_n64::fs::{create_filesystem, volume_label, volume_size, Entry, RESERVED_BYTES, SECTOR_SIZE};
use std::io::{Cursor, Read};

fn dir(name: &str) -> Entry {
    Entry { name: name.to_string(), contents: None }
}

fn file(name: &str, contents: &[u8]) -> Entry {
    Entry { name: name.to_string(), contents: Some(contents.to_vec()) }
}

fn read(volume: &[u8], path: &str) -> Vec<u8> {
    let disk = fatfs::FileSystem::new(Cursor::new(volume.to_vec()), fatfs::FsOptions::new()).unwrap();
    let mut contents = Vec::new();
    disk.root_dir().open_file(path).unwrap().read_to_end(&mut contents).unwrap();
    contents
}

fn names(volume: &[u8], path: &str) -> Vec<String> {
    let disk = fatfs::FileSystem::new(Cursor::new(volume.to_vec()), fatfs::FsOptions::new()).unwrap();
    let dir = if path.is_empty() { disk.root_dir() } else { disk.root_dir().open_dir(path).unwrap() };
    let mut names: Vec<String> = dir
        .iter()
        .map(|e| e.unwrap().file_name())
        .filter(|n| n != "." && n != "..")
        .collect();
    names.sort();
    names
}

#[test]
fn volume_size_reserves_room_for_the_file_system() {
    assert_eq!(volume_size(&[]), Some(128 * 1024));
    assert_eq!(RESERVED_BYTES, 128 * 1024);
    assert_eq!(SECTOR_SIZE, 512);
}

#[test]
fn volume_size_gives_each_file_whole_sectors() {
    assert_eq!(volume_size(&[file("a", &[])]), Some(128 * 1024));
    assert_eq!(volume_size(&[file("a", &[1])]), Some(128 * 1024 + 512));
    assert_eq!(volume_size(&[file("a", &[1; 511])]), Some(128 * 1024 + 512));
    assert_eq!(volume_size(&[file("a", &[1; 512])]), Some(128 * 1024 + 512));
    assert_eq!(volume_size(&[file("a", &[1; 513])]), Some(128 * 1024 + 1024));
    assert_eq!(volume_size(&[file("a", &[1; 1024])]), Some(128 * 1024 + 1024));
    assert_eq!(volume_size(&[file("a", &[1; 1025])]), Some(128 * 1024 + 1536));
}

#[test]
fn volume_size_adds_the_files_up() {
    let entries = [
        dir("d"),
        file("d/a", &[1; 3]),
        file("d/b", &[1; 600]),
        dir("e"),
        file("c", &[1; 512]),
        file("empty", &[]),
    ];

    assert_eq!(volume_size(&entries), Some(128 * 1024 + 512 + 1024 + 512));
}

#[test]
fn volume_size_gives_directories_no_room() {
    assert_eq!(volume_size(&[dir("a"), dir("a/b"), dir("c")]), Some(128 * 1024));
}

#[test]
fn volume_label_names_the_disk() {
    assert_eq!(&volume_label(), b"TECHNEKDISK");
}

#[test]
fn create_filesystem_formats_an_empty_volume() {
    let volume = create_filesystem(&[]).unwrap();

    assert_eq!(volume.len(), 128 * 1024);
    assert_eq!(names(&volume, ""), Vec::<String>::new());
    let disk = fatfs::FileSystem::new(Cursor::new(volume), fatfs::FsOptions::new()).unwrap();
    assert_eq!(disk.volume_label(), "TECHNEKDISK");
}

#[test]
fn create_filesystem_copies_the_tree() {
    let long: Vec<u8> = (0..3000).map(|i| (i % 253) as u8).collect();
    let entries = [
        file("hello.txt", b"Hello, world!"),
        dir("data"),
        file("data/long.bin", &long),
        dir("data/deep"),
        file("data/deep/empty", &[]),
        file("last", &[0xff; 512]),
    ];

    let volume = create_filesystem(&entries).unwrap();

    assert_eq!(volume.len(), 128 * 1024 + 512 + 3072 + 512);
    assert_eq!(volume.len() % 4, 0);
    assert_eq!(names(&volume, ""), ["data", "hello.txt", "last"]);
    assert_eq!(names(&volume, "data"), ["deep", "long.bin"]);
    assert_eq!(names(&volume, "data/deep"), ["empty"]);
    assert_eq!(read(&volume, "hello.txt"), b"Hello, world!");
    assert_eq!(read(&volume, "data/long.bin"), long);
    assert_eq!(read(&volume, "data/deep/empty"), b"");
    assert_eq!(read(&volume, "last"), [0xff; 512]);
}

#[test]
fn create_filesystem_wants_a_directory_before_what_it_holds() {
    let entries = [file("data/long.bin", &[1, 2, 3]), dir("data")];

    assert!(create_filesystem(&entries).is_err());
}

#[test]
fn fs_error_says_what_failed() {
    match create_filesystem(&[file("data/long.bin", &[1, 2, 3])]) {
        Err(e) => assert_eq!(e.to_string(), "IO Error"),
        Ok(_) => panic!("a file in no directory was taken"),
    }
}

#[test]
fn create_filesystem_gives_the_same_volume_twice() {
    let entries = [dir("data"), file("data/a.bin", &[7; 700]), file("b.txt", b"b")];

    let first = create_filesystem(&entries).unwrap();
    let second = create_filesystem(&entries).unwrap();

    assert_eq!(first, second);
}

#[test]
fn create_filesystem_reads_no_clock() {
    let volume = create_filesystem(&[file("b.txt", b"b")]).unwrap();

    let disk = fatfs::FileSystem::new(Cursor::new(volume), fatfs::FsOptions::new()).unwrap();
    let entry = disk.root_dir().iter().next().unwrap().unwrap();
    assert_eq!(entry.file_name(), "b.txt");
    assert_eq!(entry.created(), entry.modified());
    assert_eq!(entry.modified().date.year, 1980);
}
