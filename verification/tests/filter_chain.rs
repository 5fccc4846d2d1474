use request_dispatch::context::{RawContext, Request, RequestTarget};
use request_dispatch::filter::{modify_context, ContextAction, ContextFilter};
use request_dispatch::header::Headers;
use request_dispatch::params::Parameters;
use request_dispatch::status::StatusCode;
use request_dispatch::storage::FilterStorage;
use request_dispatch::uri::Uri;
use std::sync::atomic::{AtomicUsize, Ordering};
use std::sync::Arc;

struct Counting {
    calls: Arc<AtomicUsize>,
    action: ContextAction,
}

impl ContextFilter<(), ()> for Counting {
    fn modify(&self, storage: &mut FilterStorage, _global: &(), context: &mut RawContext<(), ()>) -> ContextAction {
        let seen = self.calls.fetch_add(1, Ordering::SeqCst);
        storage.items.insert(seen);
        context.variables.insert("calls".to_owned().into_bytes(), vec![seen as u8]);
        self.action
    }
}

fn context() -> RawContext<(), ()> {
    RawContext {
        request: Request {
            method: "GET".to_owned(),
            target: RequestTarget::Star,
            headers: Headers::new(),
        },
        uri: Uri::Asterisk,
        hyperlinks: vec![],
        variables: Parameters::new(),
        query: Parameters::new(),
        fragment: None,
        global: Arc::new(()),
        control: (),
    }
}

fn chain(actions: &[ContextAction], calls: &Arc<AtomicUsize>) -> Vec<Counting> {
    actions.iter().map(|action| Counting { calls: calls.clone(), action: *action }).collect()
}

#[test]
fn every_filter_runs_when_all_pass() {
    let calls = Arc::new(AtomicUsize::new(0));
    let filters = chain(&[ContextAction::Next, ContextAction::Next, ContextAction::Next], &calls);
    let mut storage = FilterStorage { items: anymap::Map::new() };
    let mut context = context();
    let action = modify_context(&filters, &(), &mut storage, &mut context);
    assert_eq!(action, ContextAction::Next);
    assert_eq!(calls.load(Ordering::SeqCst), 3);
    assert_eq!(context.variables.get_raw("calls".as_bytes()), Some(&vec![2u8]));
    assert_eq!(storage.items.get::<usize>(), Some(&2));
}

#[test]
fn no_filter_runs_behind_an_abort() {
    let calls = Arc::new(AtomicUsize::new(0));
    let forbidden = ContextAction::Abort(StatusCode { code: 403 });
    let filters = chain(&[ContextAction::Next, forbidden, ContextAction::Next, ContextAction::Next], &calls);
    let mut storage = FilterStorage { items: anymap::Map::new() };
    let mut context = context();
    let action = modify_context(&filters, &(), &mut storage, &mut context);
    assert_eq!(action, forbidden);
    assert_eq!(calls.load(Ordering::SeqCst), 2);
    assert_eq!(context.variables.get_raw("calls".as_bytes()), Some(&vec![1u8]));
}

#[test]
fn an_empty_chain_passes() {
    let filters: Vec<Counting> = vec![];
    let mut storage = FilterStorage { items: anymap::Map::new() };
    let mut context = context();
    let action = modify_context(&filters, &(), &mut storage, &mut context);
    assert_eq!(action, ContextAction::Next);
    assert_eq!(storage.items.len(), 0);
    assert_eq!(context.variables.len(), 0);
}

struct Tag {
    tag: u8,
}

impl request_dispatch::filter::ResponseFilter<u8> for Tag {
    fn write(&self, storage: &mut FilterStorage, global: &u8, mut content: Vec<u8>) -> Vec<u8> {
        let earlier = storage.items.insert(self.tag);
        content.push(earlier.unwrap_or(*global));
        content.push(self.tag);
        content
    }
}

#[test]
fn response_filters_run_in_their_order() {
    let filters = vec![Tag { tag: 1 }, Tag { tag: 2 }, Tag { tag: 3 }];
    let mut storage = FilterStorage { items: anymap::Map::new() };
    let filtered = request_dispatch::filter::filter_content(&filters, &9u8, &mut storage, vec![0u8]);
    assert_eq!(filtered, vec![0u8, 9, 1, 1, 2, 2, 3]);
    assert_eq!(storage.items.get::<u8>(), Some(&3u8));
}

#[test]
fn response_without_filters_is_left_as_it_is() {
    let filters: Vec<Tag> = vec![];
    let mut storage = FilterStorage { items: anymap::Map::new() };
    let filtered = request_dispatch::filter::filter_content(&filters, &9u8, &mut storage, vec![4u8, 5u8]);
    assert_eq!(filtered, vec![4u8, 5u8]);
    assert!(storage.items.is_empty());
}

#[test]
fn response_filters_keep_their_storage_between_parts() {
    let mut filters = request_dispatch::handler::make_response_filters(Arc::new(vec![Tag { tag: 7 }]), Arc::new(0u8));
    assert_eq!(filters.filter(vec![1u8]), vec![1u8, 0, 7]);
    assert_eq!(filters.filter(vec![2u8]), vec![2u8, 7, 7]);
    assert_eq!(filters.storage.items.len(), 1);
}
