use fs_zbox::errors::ErrorKind;
use fs_zbox::file::File;
use fs_zbox::mode::Mode;
use fs_zbox::stream::MemStream;

fn open(content: &[u8], mode: &str) -> File<MemStream> {
    File::new(MemStream::new(content.to_vec()), Mode::parse(mode))
}

fn open_chunked(content: &[u8], mode: &str, chunk: usize) -> File<MemStream> {
    File::with_chunk_size(MemStream::new(content.to_vec()), Mode::parse(mode), chunk)
}

fn content(f: &File<MemStream>) -> Vec<u8> {
    f.stream().unwrap().bytes().clone()
}

#[test]
fn readline_scenario() {
    let mut f = open(b"ab\ncd\n", "r");
    assert_eq!(f.readline().unwrap(), b"ab\n".to_vec());
    assert_eq!(f.readline().unwrap(), b"cd\n".to_vec());
    assert_eq!(f.readline().unwrap(), Vec::<u8>::new());
}

#[test]
fn readline_without_final_newline() {
    let mut f = open(b"one\ntwo", "r");
    assert_eq!(f.readline().unwrap(), b"one\n".to_vec());
    assert_eq!(f.readline().unwrap(), b"two".to_vec());
    assert_eq!(f.readline().unwrap(), Vec::<u8>::new());
    assert_eq!(f.readline().unwrap(), Vec::<u8>::new());
}

#[test]
fn tell_after_readline_for_every_chunk_size() {
    let data = b"first line\nx\n\nlast without newline";
    for chunk in [1usize, 2, 3, 5, 11, 12, 64, 8192] {
        let mut f = open_chunked(data, "r", chunk);
        loop {
            let before = f.tell().unwrap();
            let line = f.readline().unwrap();
            assert_eq!(f.tell().unwrap(), before + line.len() as u64, "chunk {}", chunk);
            if line.is_empty() {
                break;
            }
        }
    }
}

#[test]
fn readlines_round_trip_for_every_chunk_size() {
    let data = b"a\nbb\n\nccc\nd";
    for chunk in [1usize, 2, 4, 100] {
        let mut f = open_chunked(data, "r", chunk);
        let mut lines = Vec::new();
        loop {
            let line = f.readline().unwrap();
            if line.is_empty() {
                break;
            }
            lines.push(line);
        }
        assert_eq!(lines.concat(), data.to_vec());
        for l in &lines[..lines.len() - 1] {
            assert_eq!(*l.last().unwrap(), b'\n');
        }
        assert_eq!(lines.len(), 5);
    }
}

#[test]
fn readline_from_the_middle() {
    let mut f = open(b"hello\nworld\n", "r");
    assert_eq!(f.seek(2, 0).unwrap(), 2);
    assert_eq!(f.readline().unwrap(), b"llo\n".to_vec());
    assert_eq!(f.tell().unwrap(), 6);
}

#[test]
fn readline_past_the_end_is_empty() {
    let mut f = open(b"abc", "r");
    assert_eq!(f.seek(10, 0).unwrap(), 10);
    assert_eq!(f.readline().unwrap(), Vec::<u8>::new());
    assert_eq!(f.tell().unwrap(), 10);
}

#[test]
fn read_everything_and_sized() {
    let mut f = open_chunked(b"0123456789", "r", 3);
    assert_eq!(f.read(4).unwrap(), b"0123".to_vec());
    assert_eq!(f.tell().unwrap(), 4);
    assert_eq!(f.read(-1).unwrap(), b"456789".to_vec());
    assert_eq!(f.read(-1).unwrap(), Vec::<u8>::new());
    assert_eq!(f.read(5).unwrap(), Vec::<u8>::new());
}

#[test]
fn read_more_than_is_left() {
    let mut f = open(b"abc", "r");
    assert_eq!(f.read(100).unwrap(), b"abc".to_vec());
    assert_eq!(f.tell().unwrap(), 3);
    assert_eq!(f.read(0).unwrap(), Vec::<u8>::new());
}

#[test]
fn readinto_makes_one_read() {
    let mut f = open(b"abcdef", "r");
    let mut buf = vec![0u8; 4];
    assert_eq!(f.readinto(&mut buf).unwrap(), 4);
    assert_eq!(buf, b"abcd".to_vec());
    let mut buf = vec![9u8; 4];
    assert_eq!(f.readinto(&mut buf).unwrap(), 2);
    assert_eq!(buf, vec![b'e', b'f', 9, 9]);
    assert_eq!(f.readinto(&mut buf).unwrap(), 0);
}

#[test]
fn readlines_with_and_without_hint() {
    let data = b"ab\ncd\nef\n";
    let mut f = open(data, "r");
    assert_eq!(
        f.readlines(-1).unwrap(),
        vec![b"ab\n".to_vec(), b"cd\n".to_vec(), b"ef\n".to_vec()]
    );
    let mut f = open(data, "r");
    assert_eq!(f.readlines(4).unwrap(), vec![b"ab\n".to_vec(), b"cd\n".to_vec()]);
    assert_eq!(f.tell().unwrap(), 6);
    let mut f = open(data, "r");
    assert_eq!(f.readlines(3).unwrap(), vec![b"ab\n".to_vec()]);
    let mut f = open(data, "r");
    assert_eq!(f.readlines(0).unwrap(), Vec::<Vec<u8>>::new());
    assert_eq!(f.tell().unwrap(), 0);
}

#[test]
fn iteration_is_not_restartable() {
    let mut f = open(b"x\ny", "r");
    assert_eq!(f.next_line().unwrap(), Some(b"x\n".to_vec()));
    assert_eq!(f.next_line().unwrap(), Some(b"y".to_vec()));
    assert_eq!(f.next_line().unwrap(), None);
    assert_eq!(f.tell().unwrap(), 3);
    assert_eq!(f.next_line().unwrap(), None);
    assert_eq!(f.tell().unwrap(), 3);
}

#[test]
fn write_moves_the_cursor_by_the_length() {
    let mut f = open(b"hello world", "r+");
    assert_eq!(f.seek(6, 0).unwrap(), 6);
    let before = f.tell().unwrap();
    assert_eq!(f.write(b"there").unwrap(), 5);
    assert_eq!(f.tell().unwrap(), before + 5);
    assert_eq!(content(&f), b"hello there".to_vec());
    assert_eq!(f.write(b"!!").unwrap(), 2);
    assert_eq!(content(&f), b"hello there!!".to_vec());
    assert_eq!(f.tell().unwrap(), 13);
}

#[test]
fn write_on_read_only_handle_is_unsupported() {
    let mut f = open(b"abc", "r");
    let e = f.write(b"x").unwrap_err();
    assert_eq!(e.kind, ErrorKind::Unsupported);
    assert_eq!(e.message, "not writable");
    assert_eq!(content(&f), b"abc".to_vec());
}

#[test]
fn read_on_write_only_handle_is_unsupported() {
    let mut f = open(b"abc", "w");
    let e = f.read(-1).unwrap_err();
    assert_eq!(e.kind, ErrorKind::Unsupported);
    assert_eq!(e.message, "not readable");
    assert_eq!(f.readline().unwrap_err().message, "not readable");
    assert_eq!(f.readlines(-1).unwrap_err().message, "not readable");
    let mut buf = vec![7u8; 2];
    assert_eq!(f.readinto(&mut buf).unwrap_err().message, "not readable");
    assert_eq!(buf, vec![7u8, 7]);
}

#[test]
fn seek_from_end_past_the_end() {
    let mut f = open(b"0123456789", "r+");
    assert_eq!(f.seek(5, 2).unwrap(), 15);
    assert_eq!(f.tell().unwrap(), 15);
    assert_eq!(f.write(b"z").unwrap(), 1);
    assert_eq!(f.seek(0, 0).unwrap(), 0);
    let all = f.read(-1).unwrap();
    assert_eq!(all.len(), 16);
    assert_eq!(&all[..10], b"0123456789");
    assert_eq!(&all[10..15], &[0u8; 5]);
    assert_eq!(all[15], b'z');
}

#[test]
fn seek_relative_and_from_end() {
    let mut f = open(b"0123456789", "r");
    assert_eq!(f.seek(3, 0).unwrap(), 3);
    assert_eq!(f.seek(4, 1).unwrap(), 7);
    assert_eq!(f.seek(-2, 1).unwrap(), 5);
    assert_eq!(f.seek(-1, 2).unwrap(), 9);
    assert_eq!(f.read(-1).unwrap(), b"9".to_vec());
}

#[test]
fn seek_with_unknown_whence() {
    let mut f = open(b"abc", "r");
    let e = f.seek(0, 7).unwrap_err();
    assert_eq!(e.kind, ErrorKind::InvalidArgument);
    assert_eq!(e.message, "invalid whence (7, should be 0, 1 or 2)");
    let e = f.seek(0, 12345).unwrap_err();
    assert_eq!(e.message, "invalid whence (12345, should be 0, 1 or 2)");
    assert_eq!(f.tell().unwrap(), 0);
}

#[test]
fn seek_before_the_start_fails() {
    let mut f = open(b"abc", "r");
    for (offset, whence) in [(-1i64, 0u64), (-4, 2), (-1, 1)] {
        let e = f.seek(offset, whence).unwrap_err();
        assert_eq!(e.kind, ErrorKind::InvalidArgument);
        assert_eq!(e.message, "negative seek position");
    }
    assert_eq!(f.tell().unwrap(), 0);
    assert_eq!(f.seek(-3, 2).unwrap(), 0);
}

#[test]
fn truncate_at_cursor() {
    let mut f = open(b"0123456789", "r+");
    assert_eq!(f.seek(3, 0).unwrap(), 3);
    assert_eq!(f.truncate(None).unwrap(), 3);
    assert_eq!(content(&f), b"012".to_vec());
    assert_eq!(f.tell().unwrap(), 3);
    assert_eq!(f.read(-1).unwrap(), Vec::<u8>::new());
}

#[test]
fn truncate_to_given_size_extends_with_zeros() {
    let mut f = open(b"abc", "w");
    assert_eq!(f.truncate(Some(5)).unwrap(), 5);
    assert_eq!(content(&f), b"abc\0\0".to_vec());
    assert_eq!(f.truncate(Some(1)).unwrap(), 1);
    assert_eq!(content(&f), b"a".to_vec());
    assert_eq!(f.tell().unwrap(), 0);
}

#[test]
fn truncate_on_read_only_handle_is_unsupported() {
    let mut f = open(b"abc", "r");
    let e = f.truncate(None).unwrap_err();
    assert_eq!(e.kind, ErrorKind::Unsupported);
    assert_eq!(e.message, "not writable");
    assert_eq!(f.writelines(&vec![b"x".to_vec()]).unwrap_err().message, "not writable");
}

#[test]
fn writelines_writes_in_order() {
    let mut f = open(b"", "w");
    f.writelines(&vec![b"a\n".to_vec(), Vec::new(), b"bc\n".to_vec()]).unwrap();
    assert_eq!(content(&f), b"a\nbc\n".to_vec());
    assert_eq!(f.tell().unwrap(), 5);
}

#[test]
fn close_twice_is_close_once() {
    let mut f = open(b"abc", "r+");
    assert!(!f.closed());
    f.close();
    assert!(f.closed());
    f.close();
    assert!(f.closed());
    assert!(f.stream().is_none());
}

#[test]
fn operations_after_close_fail_with_closed() {
    let mut f = open(b"abc", "r+");
    f.close();
    assert_eq!(f.read(-1).unwrap_err().kind, ErrorKind::Closed);
    assert_eq!(f.readline().unwrap_err().kind, ErrorKind::Closed);
    assert_eq!(f.readlines(-1).unwrap_err().kind, ErrorKind::Closed);
    assert_eq!(f.next_line().unwrap_err().kind, ErrorKind::Closed);
    let mut buf = vec![0u8; 2];
    assert_eq!(f.readinto(&mut buf).unwrap_err().kind, ErrorKind::Closed);
    assert_eq!(f.write(b"x").unwrap_err().kind, ErrorKind::Closed);
    assert_eq!(f.writelines(&vec![b"x".to_vec()]).unwrap_err().kind, ErrorKind::Closed);
    assert_eq!(f.truncate(None).unwrap_err().kind, ErrorKind::Closed);
    assert_eq!(f.seek(0, 0).unwrap_err().kind, ErrorKind::Closed);
    let e = f.tell().unwrap_err();
    assert_eq!(e.kind, ErrorKind::Closed);
    assert_eq!(e.message, "I/O operation on closed file.");
}

#[test]
fn mode_check_comes_before_closed_check() {
    let mut f = open(b"abc", "r");
    f.close();
    assert_eq!(f.write(b"x").unwrap_err().kind, ErrorKind::Unsupported);
    assert_eq!(f.seek(0, 9).unwrap_err().kind, ErrorKind::Closed);
}

#[test]
fn capability_queries() {
    let f = open(b"", "r");
    assert!(f.readable());
    assert!(!f.writable());
    assert!(f.seekable());
    assert!(!f.isatty());
    assert_eq!(f.mode(), "rb");
    assert_eq!(f.fileno().unwrap_err().kind, ErrorKind::Unsupported);
    let mut g = open(b"", "a");
    assert!(!g.readable());
    assert!(g.writable());
    assert!(g.flush().is_ok());
    assert_eq!(g.mode(), "ab");
}
