use ingest::message::{Header, Message};
use ingest::server::{AuthError, AuthResult, ConsumeError, Finder, Server};
use ingest::stream::Stream;
use ingest::Void;

enum Impossible {}

impl Stream for Impossible {
    type PushErr = Void;
    type Extract = Void;
    type ExtractErr = Void;

    fn observations(&self) -> vstd::seq::Seq<(u64, vstd::seq::Seq<u8>)> {
        panic!()
    }

    fn push(&mut self, _millis: u64, _payload: &[u8]) -> Result<(), Void> {
        match *self {}
    }

    fn extract(self) -> Result<Void, (Self, Void)> {
        match self {}
    }
}

struct Working;

impl Stream for Working {
    type PushErr = Void;
    type Extract = ();
    type ExtractErr = Void;

    fn observations(&self) -> vstd::seq::Seq<(u64, vstd::seq::Seq<u8>)> {
        panic!()
    }

    fn push(&mut self, _millis: u64, _payload: &[u8]) -> Result<(), Void> {
        Ok(())
    }

    fn extract(self) -> Result<(), (Self, Void)> {
        Ok(())
    }
}

struct BrokenStream;

impl Stream for BrokenStream {
    type PushErr = ();
    type Extract = Void;
    type ExtractErr = ();

    fn observations(&self) -> vstd::seq::Seq<(u64, vstd::seq::Seq<u8>)> {
        panic!()
    }

    fn push(&mut self, _millis: u64, _payload: &[u8]) -> Result<(), ()> {
        Err(())
    }

    fn extract(self) -> Result<Void, (Self, ())> {
        Err((self, ()))
    }
}

struct RefuseToAuth;

impl Server for RefuseToAuth {
    type Stream = Impossible;
    type AuthErr = Void;

    fn grants(&self, _token: vstd::seq::Seq<u8>) -> bool {
        panic!()
    }

    fn table(
        &self,
        _token: vstd::seq::Seq<u8>,
    ) -> vstd::map::Map<vstd::seq::Seq<u8>, Self::Stream> {
        panic!()
    }

    fn auth(&mut self, _token: &[u8]) -> AuthResult<Impossible, Void> {
        Err(AuthError::InvalidToken)
    }

    fn restore(&mut self, _token: &[u8], _finder: Finder<Impossible>) {}
}

struct CannotAuth;

impl Server for CannotAuth {
    type Stream = Impossible;
    type AuthErr = ();

    fn grants(&self, _token: vstd::seq::Seq<u8>) -> bool {
        panic!()
    }

    fn table(
        &self,
        _token: vstd::seq::Seq<u8>,
    ) -> vstd::map::Map<vstd::seq::Seq<u8>, Self::Stream> {
        panic!()
    }

    fn auth(&mut self, _token: &[u8]) -> AuthResult<Impossible, ()> {
        Err(AuthError::Other(()))
    }

    fn restore(&mut self, _token: &[u8], _finder: Finder<Impossible>) {}
}

struct AcceptAll<S: Stream> {
    finder: Option<Finder<S>>,
}

impl<S: Stream> Server for AcceptAll<S> {
    type Stream = S;
    type AuthErr = Void;

    fn grants(&self, _token: vstd::seq::Seq<u8>) -> bool {
        panic!()
    }

    fn table(
        &self,
        _token: vstd::seq::Seq<u8>,
    ) -> vstd::map::Map<vstd::seq::Seq<u8>, Self::Stream> {
        panic!()
    }

    fn auth(&mut self, _token: &[u8]) -> AuthResult<S, Void> {
        Ok(self.finder.take().unwrap_or_else(Finder::new))
    }

    fn restore(&mut self, _token: &[u8], finder: Finder<S>) {
        self.finder = Some(finder);
    }
}

fn msg(token: &[u8], id: &[u8], millis: u64, payload: &[u8]) -> Message<Vec<u8>> {
    Message {
        header: Header {
            token: token.to_vec(),
            id: id.to_vec(),
            millis,
        },
        payload: payload.to_vec(),
    }
}

#[test]
fn missing_token() {
    let mut server = RefuseToAuth;
    assert!(matches!(
        server.consume(msg(b"tok", b"id", 7, &[1])),
        Err(ConsumeError::Auth(AuthError::InvalidToken))
    ));
}

#[test]
fn other_auth_error() {
    let mut server = CannotAuth;
    assert!(matches!(
        server.consume(msg(b"tok", b"id", 7, &[1])),
        Err(ConsumeError::Auth(AuthError::Other(())))
    ));
}

#[test]
fn missing_id() {
    let mut server: AcceptAll<Impossible> = AcceptAll {
        finder: Some(Finder::new()),
    };
    assert!(matches!(
        server.consume(msg(b"tok", b"id", 7, &[1])),
        Err(ConsumeError::MissingId)
    ));
}

#[test]
fn push_error() {
    let mut finder = Finder::new();
    finder.insert(b"id".to_vec(), BrokenStream);
    let mut server = AcceptAll {
        finder: Some(finder),
    };
    assert!(matches!(
        server.consume(msg(b"tok", b"id", 7, &[1])),
        Err(ConsumeError::Push(()))
    ));
}

#[test]
fn push_error_keeps_stream_registered() {
    let mut finder = Finder::new();
    finder.insert(b"id".to_vec(), BrokenStream);
    let mut server = AcceptAll {
        finder: Some(finder),
    };
    let _ = server.consume(msg(b"tok", b"id", 7, &[1]));
    assert!(server.finder.unwrap().contains_id(b"id"));
}

#[test]
fn ok_consume() {
    let mut finder = Finder::new();
    finder.insert(b"id".to_vec(), Working);
    let mut server = AcceptAll {
        finder: Some(finder),
    };
    assert!(matches!(server.consume(msg(b"tok", b"id", 7, &[1])), Ok(())));
}
