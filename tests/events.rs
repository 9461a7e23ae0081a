use serenity_additions::events::{start_update_loop, BuiltinRoute, NotificationKind, Route};
use serenity_additions::RichEventHandler;

#[test]
fn default_handler_has_the_builtin_routes() {
    let handler = RichEventHandler::default();
    assert_eq!(
        handler.routes_for(NotificationKind::Ready),
        vec![Route::Builtin(BuiltinRoute::StartUpdateLoop)]
    );
    assert_eq!(
        handler.routes_for(NotificationKind::ReactionAdd),
        vec![Route::Builtin(BuiltinRoute::ReactionAdd)]
    );
    assert_eq!(
        handler.routes_for(NotificationKind::ReactionRemove),
        vec![Route::Builtin(BuiltinRoute::ReactionRemove)]
    );
    assert_eq!(
        handler.routes_for(NotificationKind::MessageDelete),
        vec![Route::Builtin(BuiltinRoute::MessageDelete)]
    );
    assert_eq!(
        handler.routes_for(NotificationKind::MessageDeleteBulk),
        vec![Route::Builtin(BuiltinRoute::MessageDeleteBulk)]
    );
    assert_eq!(handler.routes_for(NotificationKind::GuildCreate), vec![]);
}

#[test]
fn callbacks_run_in_registration_order() {
    let mut handler = RichEventHandler::default();
    handler.add_event(NotificationKind::MessageCreate, 3);
    handler.add_event(NotificationKind::ReactionAdd, 1);
    handler.add_event(NotificationKind::MessageCreate, 2);
    assert_eq!(
        handler.routes_for(NotificationKind::MessageCreate),
        vec![Route::Callback(3), Route::Callback(2)]
    );
    assert_eq!(
        handler.routes_for(NotificationKind::ReactionAdd),
        vec![Route::Builtin(BuiltinRoute::ReactionAdd), Route::Callback(1)]
    );
}

#[test]
fn empty_handler_routes_nothing() {
    let mut handler = RichEventHandler::empty();
    assert_eq!(handler.routes_for(NotificationKind::Ready), vec![]);
    handler.add_event(NotificationKind::Ready, 8);
    assert_eq!(handler.routes_for(NotificationKind::Ready), vec![Route::Callback(8)]);
}

#[test]
fn update_loop_starts_once() {
    let mut started = false;
    assert!(start_update_loop(&mut started));
    assert!(!start_update_loop(&mut started));
    assert!(started);
}

#[test]
fn thread_events_have_their_own_kind() {
    let mut handler = RichEventHandler::default();
    assert_eq!(handler.routes_for(NotificationKind::ThreadCreate), vec![]);
    handler.add_event(NotificationKind::ThreadCreate, 4);
    handler.add_event(NotificationKind::StageInstanceDelete, 5);
    assert_eq!(handler.routes_for(NotificationKind::ThreadCreate), vec![Route::Callback(4)]);
    assert_eq!(handler.routes_for(NotificationKind::ThreadUpdate), vec![]);
    assert_eq!(
        handler.routes_for(NotificationKind::StageInstanceDelete),
        vec![Route::Callback(5)]
    );
}
