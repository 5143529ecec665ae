use ingest::server::Finder;
use ingest::stream::Finder as FinderOps;
use ingest::stream::Stream;

#[derive(Debug, PartialEq)]
struct Broken;

impl Stream for Broken {
    type PushErr = ();
    type Extract = ();
    type ExtractErr = ();

    fn observations(&self) -> vstd::seq::Seq<(u64, vstd::seq::Seq<u8>)> {
        panic!()
    }

    fn push(&mut self, _millis: u64, _payload: &[u8]) -> Result<(), ()> {
        Err(())
    }

    fn extract(self) -> Result<(), (Self, ())> {
        Err((self, ()))
    }
}

#[derive(Debug, PartialEq)]
struct Working;

impl Stream for Working {
    type PushErr = ();
    type Extract = ();
    type ExtractErr = ();

    fn observations(&self) -> vstd::seq::Seq<(u64, vstd::seq::Seq<u8>)> {
        panic!()
    }

    fn push(&mut self, _millis: u64, _payload: &[u8]) -> Result<(), ()> {
        Ok(())
    }

    fn extract(self) -> Result<(), (Self, ())> {
        Ok(())
    }
}

#[test]
fn finder_missing_id_returns_none_and_keeps_table() {
    let mut streams: Finder<Working> = Finder::new();
    streams.insert(b"here".to_vec(), Working);
    assert!(matches!(streams.extract(b"absent"), None));
    assert!(streams.contains_id(b"here"));
}

#[test]
fn finder_extract_error_is_reported() {
    let mut streams: Finder<Broken> = Finder::new();
    streams.insert(b"a".to_vec(), Broken);
    streams.insert(b"b".to_vec(), Broken);
    assert!(matches!(streams.extract(b"a"), Some(Err(()))));
}

#[test]
fn finder_extract_error_reinserts() {
    let mut streams: Finder<Broken> = Finder::new();
    streams.insert(b"a".to_vec(), Broken);
    streams.insert(b"b".to_vec(), Broken);
    streams.extract(b"a");
    assert_eq!(streams.get(b"a"), Some(&Broken));
    assert_eq!(streams.get(b"b"), Some(&Broken));
}

#[test]
fn finder_extract_ok_yields_value() {
    let mut streams: Finder<Working> = Finder::new();
    streams.insert(b"a".to_vec(), Working);
    assert!(matches!(streams.extract(b"a"), Some(Ok(()))));
}

#[test]
fn finder_extract_ok_removes_entry() {
    let mut streams: Finder<Working> = Finder::new();
    streams.insert(b"a".to_vec(), Working);
    streams.insert(b"other".to_vec(), Working);
    streams.extract(b"a");
    assert_eq!(streams.get(b"a"), None);
    assert_eq!(streams.get(b"other"), Some(&Working));
}

#[test]
fn finder_insert_replaces_and_returns_previous() {
    let mut streams: Finder<Working> = Finder::new();
    assert_eq!(streams.insert(b"a".to_vec(), Working), None);
    assert_eq!(streams.insert(b"a".to_vec(), Working), Some(Working));
    assert_eq!(streams.remove(b"a"), Some(Working));
    assert_eq!(streams.remove(b"a"), None);
}
