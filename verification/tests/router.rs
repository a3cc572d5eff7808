use rabbit::request::{Method, Request};
use rabbit::router::Router;

fn req(method: Method, path: &[u8]) -> Request {
    Request { method, path: path.to_vec() }
}

#[test]
fn router_new_is_empty() {
    let r: Router<u32> = Router::new();
    assert_eq!(r.get_callback(&req(Method::GET, b"/a")), None);
}

#[test]
fn router_registered_key_is_found() {
    let mut r: Router<u32> = Router::new();
    r.add(Method::GET, b"/a".to_vec(), 1);
    r.add(Method::POST, b"/a".to_vec(), 2);
    r.add(Method::GET, b"/b".to_vec(), 3);
    assert_eq!(r.get_callback(&req(Method::GET, b"/a")), Some(1));
    assert_eq!(r.get_callback(&req(Method::POST, b"/a")), Some(2));
    assert_eq!(r.get_callback(&req(Method::GET, b"/b")), Some(3));
}

#[test]
fn router_unregistered_key_is_none() {
    let mut r: Router<u32> = Router::new();
    r.add(Method::GET, b"/a".to_vec(), 1);
    assert_eq!(r.get_callback(&req(Method::PUT, b"/a")), None);
    assert_eq!(r.get_callback(&req(Method::GET, b"/missing")), None);
    assert_eq!(r.get_callback(&req(Method::GET, b"/a/")), None);
}

#[test]
fn router_match_is_exact_on_path() {
    let mut r: Router<u32> = Router::new();
    r.add(Method::GET, b"/api/cars".to_vec(), 9);
    assert_eq!(r.get_callback(&req(Method::GET, b"/api/cars")), Some(9));
    assert_eq!(r.get_callback(&req(Method::GET, b"/api/car")), None);
    assert_eq!(r.get_callback(&req(Method::GET, b"/api/cars/")), None);
    assert_eq!(r.get_callback(&req(Method::GET, b"/API/CARS")), None);
}

#[test]
fn router_overwrite_latest_wins() {
    let mut r: Router<u32> = Router::new();
    r.add(Method::GET, b"/a".to_vec(), 1);
    r.add(Method::GET, b"/a".to_vec(), 2);
    assert_eq!(r.get_callback(&req(Method::GET, b"/a")), Some(2));
    r.add(Method::GET, b"/a".to_vec(), 5);
    assert_eq!(r.get_callback(&req(Method::GET, b"/a")), Some(5));
}

#[test]
fn router_overwrite_leaves_other_keys_alone() {
    let mut r: Router<u32> = Router::new();
    r.add(Method::GET, b"/a".to_vec(), 1);
    r.add(Method::GET, b"/b".to_vec(), 2);
    r.add(Method::GET, b"/a".to_vec(), 3);
    assert_eq!(r.get_callback(&req(Method::GET, b"/a")), Some(3));
    assert_eq!(r.get_callback(&req(Method::GET, b"/b")), Some(2));
}
