use easy_fs::fs::{DiskInodeType, EasyFileSystem};
use easy_fs::vfs::{CreateError, Inode};

fn fresh(capacity: u32) -> (EasyFileSystem, Inode) {
    let fs = EasyFileSystem::new(2, capacity, 100, 64);
    let (block_id, block_offset) = fs.get_disk_inode_pos(0);
    let root = Inode::new(block_id, block_offset, 0);
    (fs, root)
}

#[test]
fn create_gives_next_inode_id() {
    let (mut fs, root) = fresh(16);
    let h = root.create(&mut fs, "hello.txt").unwrap();
    assert_eq!(h.inode_id(), 1);
    assert!(h.is_file(&fs));
    assert!(!h.is_dir(&fs));
    assert!(root.is_dir(&fs));
    assert_eq!(h.link_count(&fs), 1);
}

#[test]
fn write_then_read_hi() {
    let (mut fs, root) = fresh(16);
    let h = root.create(&mut fs, "hello.txt").unwrap();
    assert_eq!(h.write_at(&mut fs, 0, b"hi"), 2);
    let mut buf = vec![0u8; 5];
    assert_eq!(h.read_at(&fs, 0, &mut buf), 2);
    assert_eq!(&buf[..2], b"hi");
}

#[test]
fn ls_after_create() {
    let (mut fs, root) = fresh(16);
    root.create(&mut fs, "hello.txt").unwrap();
    assert_eq!(root.ls(&fs), vec!["hello.txt".to_string()]);
}

#[test]
fn create_duplicate_is_none() {
    let (mut fs, root) = fresh(16);
    assert!(root.create(&mut fs, "hello.txt").is_ok());
    assert_eq!(root.create(&mut fs, "hello.txt").err(), Some(CreateError::AlreadyExists));
    assert_eq!(root.ls(&fs).len(), 1);
}

#[test]
fn link_adds_one_link() {
    let (mut fs, root) = fresh(16);
    let h = root.create(&mut fs, "hello.txt").unwrap();
    let before = h.link_count(&fs);
    root.link(&mut fs, "alias.txt".to_string(), &h);
    assert_eq!(h.link_count(&fs), before + 1);
    assert_eq!(root.ls(&fs), vec!["hello.txt".to_string(), "alias.txt".to_string()]);
    let f = root.find(&fs, "hello.txt").unwrap();
    let g = root.find(&fs, "alias.txt").unwrap();
    assert_eq!(f.inode_id(), g.inode_id());
}

#[test]
fn unlink_one_of_two_names() {
    let (mut fs, root) = fresh(16);
    let h = root.create(&mut fs, "hello.txt").unwrap();
    h.write_at(&mut fs, 0, b"hi");
    root.link(&mut fs, "alias.txt".to_string(), &h);
    let before = h.link_count(&fs);
    root.unlink(&mut fs, "hello.txt".to_string(), &h);
    assert_eq!(root.ls(&fs), vec!["alias.txt".to_string()]);
    assert_eq!(h.link_count(&fs), before - 1);
    assert!(h.link_count(&fs) > 0);
    let mut buf = vec![0u8; 5];
    assert_eq!(h.read_at(&fs, 0, &mut buf), 2);
    assert_eq!(&buf[..2], b"hi");
}

#[test]
fn unlink_last_name_frees_inode() {
    let (mut fs, root) = fresh(16);
    let h = root.create(&mut fs, "hello.txt").unwrap();
    h.write_at(&mut fs, 0, b"hi");
    root.link(&mut fs, "alias.txt".to_string(), &h);
    root.unlink(&mut fs, "hello.txt".to_string(), &h);
    root.unlink(&mut fs, "alias.txt".to_string(), &h);
    assert_eq!(h.link_count(&fs), 0);
    assert!(root.ls(&fs).is_empty());
    let mut buf = vec![7u8; 5];
    assert_eq!(h.read_at(&fs, 0, &mut buf), 0);
    assert_eq!(buf, vec![7u8; 5]);
    let again = root.create(&mut fs, "new.txt").unwrap();
    assert_eq!(again.inode_id(), 1);
}

#[test]
fn find_after_create() {
    let (mut fs, root) = fresh(16);
    let h = root.create(&mut fs, "a").unwrap();
    let found = root.find(&fs, "a").unwrap();
    assert_eq!(found.inode_id(), h.inode_id());
    assert_eq!(found.block_id, h.block_id);
    assert_eq!(found.block_offset, h.block_offset);
    assert!(root.find(&fs, "b").is_none());
}

#[test]
fn find_in_empty_directory() {
    let (fs, root) = fresh(4);
    assert!(root.find(&fs, "x").is_none());
    assert!(root.ls(&fs).is_empty());
}

#[test]
fn read_past_end_is_short() {
    let (mut fs, root) = fresh(16);
    let h = root.create(&mut fs, "f").unwrap();
    let data = b"abcdef";
    assert_eq!(h.write_at(&mut fs, 0, data), 6);
    let mut buf = vec![0u8; 6];
    assert_eq!(h.read_at(&fs, 0, &mut buf), 6);
    assert_eq!(&buf[..], &data[..]);
    let mut big = vec![9u8; 10];
    assert_eq!(h.read_at(&fs, 4, &mut big), 2);
    assert_eq!(&big[..2], b"ef");
    assert_eq!(big[2], 9);
    assert_eq!(h.read_at(&fs, 6, &mut big), 0);
    assert_eq!(h.read_at(&fs, 100, &mut big), 0);
}

#[test]
fn sparse_write_fills_gap_with_zeros() {
    let (mut fs, root) = fresh(16);
    let h = root.create(&mut fs, "f").unwrap();
    h.write_at(&mut fs, 0, b"ab");
    assert_eq!(h.write_at(&mut fs, 6, b"xy"), 2);
    let mut buf = vec![1u8; 8];
    assert_eq!(h.read_at(&fs, 0, &mut buf), 8);
    assert_eq!(buf, vec![b'a', b'b', 0, 0, 0, 0, b'x', b'y']);
}

#[test]
fn overwrite_inside_keeps_size() {
    let (mut fs, root) = fresh(16);
    let h = root.create(&mut fs, "f").unwrap();
    h.write_at(&mut fs, 0, b"hello");
    h.write_at(&mut fs, 1, b"EL");
    let mut buf = vec![0u8; 10];
    assert_eq!(h.read_at(&fs, 0, &mut buf), 5);
    assert_eq!(&buf[..5], b"hELlo");
}

#[test]
fn listing_keeps_creation_order() {
    let (mut fs, root) = fresh(16);
    for name in ["zeta", "alpha", "mid"] {
        root.create(&mut fs, name).unwrap();
    }
    assert_eq!(root.ls(&fs), vec!["zeta".to_string(), "alpha".to_string(), "mid".to_string()]);
}

#[test]
fn link_allows_duplicate_names() {
    let (mut fs, root) = fresh(16);
    let h = root.create(&mut fs, "a").unwrap();
    root.link(&mut fs, "a".to_string(), &h);
    assert_eq!(root.ls(&fs), vec!["a".to_string(), "a".to_string()]);
    assert_eq!(h.link_count(&fs), 2);
    root.unlink(&mut fs, "a".to_string(), &h);
    assert!(root.ls(&fs).is_empty());
    assert_eq!(h.link_count(&fs), 1);
}

#[test]
fn create_fails_when_no_inode_is_free() {
    let (mut fs, root) = fresh(2);
    assert_eq!(root.create(&mut fs, "a").unwrap().inode_id(), 1);
    assert_eq!(root.create(&mut fs, "b").err(), Some(CreateError::NoFreeInode));
    assert_eq!(root.create(&mut fs, "a").err(), Some(CreateError::AlreadyExists));
    assert_eq!(root.ls(&fs), vec!["a".to_string()]);
}

#[test]
fn clear_empties_file() {
    let (mut fs, root) = fresh(4);
    let h = root.create(&mut fs, "f").unwrap();
    h.write_at(&mut fs, 0, b"data");
    h.clear(&mut fs);
    let mut buf = vec![0u8; 4];
    assert_eq!(h.read_at(&fs, 0, &mut buf), 0);
    assert_eq!(h.link_count(&fs), 1);
}

#[test]
fn increment_and_decrement_link() {
    let (mut fs, root) = fresh(4);
    let h = root.create(&mut fs, "f").unwrap();
    h.increment_link(&mut fs);
    assert_eq!(h.link_count(&fs), 2);
    h.decrement_link(&mut fs);
    assert_eq!(h.link_count(&fs), 1);
}

#[test]
fn inode_positions() {
    let fs = EasyFileSystem::new(2, 16, 100, 8);
    assert_eq!(fs.get_disk_inode_pos(0), (2, 0));
    assert_eq!(fs.get_disk_inode_pos(5), (3, 128));
    assert_eq!(fs.get_disk_inode_pos(11), (4, 384));
}

#[test]
fn alloc_and_dealloc_inode() {
    let mut fs = EasyFileSystem::new(0, 3, 10, 2);
    assert_eq!(fs.alloc_inode(), Some(1));
    assert_eq!(fs.alloc_inode(), Some(2));
    assert_eq!(fs.alloc_inode(), None);
    fs.dealloc_inode(1);
    assert_eq!(fs.alloc_inode(), Some(1));
    assert!(fs.inodes[1].type_ == DiskInodeType::File);
}

#[test]
fn disk_inode_records() {
    let mut d = easy_fs::fs::DiskInode::initialize(DiskInodeType::File);
    assert!(d.is_file());
    assert!(!d.is_dir());
    assert_eq!(d.link, 1);
    assert_eq!(d.size(), 0);
    assert_eq!(d.blocks_num_needed(3), 1);
    d.increase_size(3, vec![40]);
    assert_eq!(d.data, vec![0u8, 0, 0]);
    assert_eq!(d.blocks_num_needed(1), 0);
    d.increase_size(1, vec![]);
    assert_eq!(d.size(), 3);
    assert_eq!(d.write_at(5, b"z", vec![]), 1);
    assert_eq!(d.data, vec![0u8, 0, 0, 0, 0, b'z']);
    assert_eq!(d.blocks_num_needed(513), 1);
    assert_eq!(d.blocks_num_needed(1025), 2);
    assert_eq!(d.write_at(600, b"q", vec![41]), 1);
    assert_eq!(d.size(), 601);
    assert_eq!(d.clear_size(), vec![40, 41]);
    assert_eq!(d.size(), 0);
    assert!(d.blocks.is_empty());
    let dir = easy_fs::fs::DiskInode::initialize(DiskInodeType::Directory);
    assert!(dir.is_dir());
    assert_eq!(dir.size(), 0);
}

#[test]
fn directory_size_counts_entries() {
    let (mut fs, root) = fresh(8);
    root.create(&mut fs, "a").unwrap();
    root.create(&mut fs, "b").unwrap();
    assert_eq!(fs.inodes[0].size(), 2 * easy_fs::fs::DIRENT_SZ as u32);
}

#[test]
fn writes_take_blocks_and_unlink_returns_them() {
    let (mut fs, root) = fresh(8);
    assert_eq!(fs.data_free.len(), 64);
    let h = root.create(&mut fs, "f").unwrap();
    assert_eq!(fs.data_free.len(), 63);
    assert_eq!(fs.inodes[0].blocks.len(), 1);
    h.write_at(&mut fs, 0, &vec![1u8; 1000]);
    assert_eq!(fs.data_free.len(), 61);
    h.write_at(&mut fs, 10, b"abc");
    assert_eq!(fs.data_free.len(), 61);
    assert_eq!(fs.inodes[1].blocks.len(), 2);
    root.unlink(&mut fs, "f".to_string(), &h);
    assert_eq!(fs.data_free.len(), 64);
    assert!(fs.inodes[1].blocks.is_empty());
    assert!(!fs.inode_bitmap[1]);
}

#[test]
fn directory_grows_a_block_every_sixteen_entries() {
    let (mut fs, root) = fresh(40);
    for i in 0..17u32 {
        root.create(&mut fs, &format!("f{}", i)).unwrap();
    }
    assert_eq!(fs.inodes[0].blocks.len(), 2);
    assert_eq!(fs.data_free.len(), 62);
    root.unlink(&mut fs, "f0".to_string(), &Inode::new(0, 0, 1));
    assert_eq!(fs.inodes[0].blocks.len(), 1);
    assert_eq!(root.ls(&fs).len(), 16);
    assert_eq!(fs.data_free.len(), 63);
}

#[test]
fn new_filesystem_lists_free_blocks() {
    let fs = EasyFileSystem::new(1, 4, 50, 3);
    assert_eq!(fs.data_free, vec![50, 51, 52]);
    assert!(fs.inode_bitmap[0]);
    assert!(!fs.inode_bitmap[1]);
}

#[test]
fn growth_takes_blocks_off_the_end_of_the_free_list() {
    let mut fs = EasyFileSystem::new(2, 8, 100, 6);
    let (b, o) = fs.get_disk_inode_pos(0);
    let root = Inode::new(b, o, 0);
    let h = root.create(&mut fs, "f").unwrap();
    assert_eq!(fs.inodes[0].blocks, vec![105]);
    h.write_at(&mut fs, 0, &vec![7u8; 1100]);
    assert_eq!(fs.inodes[1].blocks, vec![104, 103, 102]);
    assert_eq!(fs.data_free, vec![100, 101]);
    root.unlink(&mut fs, "f".to_string(), &h);
    assert_eq!(fs.data_free, vec![100, 101, 105, 104, 103, 102]);
}

#[test]
fn duplicate_create_needs_no_free_block() {
    let mut fs = EasyFileSystem::new(2, 8, 100, 1);
    let (b, o) = fs.get_disk_inode_pos(0);
    let root = Inode::new(b, o, 0);
    root.create(&mut fs, "f").unwrap();
    assert!(fs.data_free.is_empty());
    assert_eq!(root.create(&mut fs, "f").err(), Some(CreateError::AlreadyExists));
}

#[test]
fn unlink_an_entry_naming_the_root() {
    let (mut fs, root) = fresh(8);
    root.link(&mut fs, "self".to_string(), &root);
    assert_eq!(root.link_count(&fs), 2);
    root.unlink(&mut fs, "self".to_string(), &root);
    assert_eq!(root.link_count(&fs), 1);
    assert!(root.ls(&fs).is_empty());
    assert!(fs.inode_bitmap[0]);
}
