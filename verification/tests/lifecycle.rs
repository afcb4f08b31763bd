use catalog_browser::content_set::{
    make_content_set_url, ContentSet, ContentSetMetadata, CONTENT_SET_URL_PREFIX,
    CONTENT_SET_URL_SUFFIX,
};
use catalog_browser::context::{BackgroundTask, EventCtx, LifeCycleCtx, Work};
use catalog_browser::event::{
    Command, Event, LifeCycle, Payload, PromiseResult, PromiseToken, Slot,
};
use catalog_browser::root_widget::{RootWidget, COLLECTION_URL};

fn record(title: &str, ref_id: &str) -> ContentSetMetadata {
    ContentSetMetadata { title: title.to_string(), ref_id: ref_id.to_string() }
}

fn root_with_rows(refs: &[&str]) -> RootWidget {
    let mut root = RootWidget::new();
    let mut lc = LifeCycleCtx::new(100);
    root.lifecycle(&mut lc, &LifeCycle::WidgetAdded);
    let records = refs.iter().map(|r| record("title", r)).collect();
    root.on_event(
        &mut EventCtx::new(),
        &Event::PromiseResult(PromiseResult {
            token: PromiseToken { id: 100 },
            payload: Payload::Collection(records),
        }),
    );
    root
}

#[test]
fn the_addresses_are_those_of_the_catalog() {
    assert_eq!(COLLECTION_URL, "https://cd-static.bamgrid.com/dp-117731241344/home.json");
    assert_eq!(CONTENT_SET_URL_PREFIX, "https://cd-static.bamgrid.com/dp-117731241344/sets/");
    assert_eq!(CONTENT_SET_URL_SUFFIX, ".json");
}

#[test]
fn the_address_of_a_row_holds_its_reference() {
    assert_eq!(
        make_content_set_url("f506622c-4f75-4f87-bafe-3e08a4433914"),
        "https://cd-static.bamgrid.com/dp-117731241344/sets/f506622c-4f75-4f87-bafe-3e08a4433914.json"
    );
    assert_eq!(
        make_content_set_url(""),
        "https://cd-static.bamgrid.com/dp-117731241344/sets/.json"
    );
}

#[test]
fn a_new_context_holds_nothing() {
    let lc = LifeCycleCtx::new(9);
    assert_eq!(lc.next_token, 9);
    assert_eq!(lc.launched, vec![]);
    assert!(!lc.focus_registered);
    assert_eq!(lc.commands, vec![]);
    let ctx = EventCtx::new();
    assert!(!ctx.anim_frame_requested);
    assert!(!ctx.layout_requested);
    assert!(!ctx.pan_requested);
    assert!(!ctx.focus_requested);
    assert!(!ctx.children_skipped);
    assert_eq!(ctx.commands, vec![]);
}

#[test]
fn each_request_sets_its_own_flag() {
    let mut ctx = EventCtx::new();
    ctx.request_anim_frame();
    assert!(ctx.anim_frame_requested && !ctx.layout_requested);
    ctx.request_layout();
    assert!(ctx.layout_requested && !ctx.pan_requested);
    ctx.request_pan_to_this();
    assert!(ctx.pan_requested && !ctx.focus_requested);
    ctx.request_focus();
    assert!(ctx.focus_requested && !ctx.children_skipped);
    ctx.skip_child();
    assert!(ctx.children_skipped);
    ctx.submit_command(Command::RequestFocus);
    ctx.submit_command(Command::ChangeSelectedItem(1, 2));
    assert_eq!(ctx.commands, vec![Command::RequestFocus, Command::ChangeSelectedItem(1, 2)]);
}

#[test]
fn the_runner_hands_out_tokens_in_sequence() {
    let mut lc = LifeCycleCtx::new(41);
    let first = lc.compute_in_background(Work::LoadCollection("a".to_string()));
    let second = lc.compute_in_background(Work::LoadContentSet("b".to_string()));
    assert_eq!(first, PromiseToken { id: 41 });
    assert_eq!(second, PromiseToken { id: 42 });
    assert_eq!(lc.next_token, 43);
    assert_eq!(
        lc.launched,
        vec![
            BackgroundTask { token: first, work: Work::LoadCollection("a".to_string()) },
            BackgroundTask { token: second, work: Work::LoadContentSet("b".to_string()) },
        ]
    );
}

#[test]
fn the_root_launches_the_fetch_of_the_rows_when_added() {
    let mut root = RootWidget::new();
    let mut lc = LifeCycleCtx::new(7);
    root.lifecycle(&mut lc, &LifeCycle::WidgetAdded);
    assert_eq!(root.children_promise, Slot::Pending(PromiseToken { id: 7 }));
    assert_eq!(root.children, None);
    assert_eq!(lc.next_token, 8);
    assert_eq!(
        lc.launched,
        vec![BackgroundTask {
            token: PromiseToken { id: 7 },
            work: Work::LoadCollection(
                "https://cd-static.bamgrid.com/dp-117731241344/home.json".to_string()
            ),
        }]
    );
    assert!(!lc.focus_registered);
    assert_eq!(lc.commands, vec![]);
}

#[test]
fn the_root_does_not_launch_twice() {
    let mut root = RootWidget::new();
    let mut lc = LifeCycleCtx::new(7);
    root.lifecycle(&mut lc, &LifeCycle::WidgetAdded);
    root.lifecycle(&mut lc, &LifeCycle::WidgetAdded);
    assert_eq!(root.children_promise, Slot::Pending(PromiseToken { id: 7 }));
    assert_eq!(lc.next_token, 8);
    assert_eq!(lc.launched.len(), 1);
    let mut resolved = root_with_rows(&[]);
    let mut later = LifeCycleCtx::new(200);
    resolved.lifecycle(&mut later, &LifeCycle::WidgetAdded);
    assert_eq!(resolved.children_promise, Slot::Resolved);
    assert_eq!(later.launched, vec![]);
    assert_eq!(later.next_token, 200);
}

#[test]
fn new_rows_launch_their_fetches_in_row_order() {
    let mut root = root_with_rows(&["ref-a", "ref-b", "ref-c"]);
    let mut lc = LifeCycleCtx::new(20);
    root.lifecycle(&mut lc, &LifeCycle::WidgetAdded);
    let rows = root.children.as_ref().unwrap();
    for (i, name) in ["ref-a", "ref-b", "ref-c"].iter().enumerate() {
        let token = PromiseToken { id: 20 + i as u64 };
        assert_eq!(rows[i].children_promise, Slot::Pending(token));
        assert_eq!(rows[i].children, None);
        assert_eq!(
            lc.launched[i],
            BackgroundTask {
                token,
                work: Work::LoadContentSet(format!(
                    "https://cd-static.bamgrid.com/dp-117731241344/sets/{name}.json"
                )),
            }
        );
    }
    assert_eq!(lc.launched.len(), 3);
    assert_eq!(lc.next_token, 23);
    assert_eq!(root.children_promise, Slot::Resolved);
}

#[test]
fn only_idle_rows_launch() {
    let mut root = root_with_rows(&["ref-a", "ref-b", "ref-c"]);
    {
        let rows = root.children.as_mut().unwrap();
        rows[0].children_promise = Slot::Pending(PromiseToken { id: 3 });
        rows[1].children_promise = Slot::Idle;
        rows[2].children_promise = Slot::Resolved;
    }
    let mut lc = LifeCycleCtx::new(50);
    root.lifecycle(&mut lc, &LifeCycle::WidgetAdded);
    let rows = root.children.as_ref().unwrap();
    assert_eq!(rows[0].children_promise, Slot::Pending(PromiseToken { id: 3 }));
    assert_eq!(rows[1].children_promise, Slot::Pending(PromiseToken { id: 50 }));
    assert_eq!(rows[2].children_promise, Slot::Resolved);
    assert_eq!(lc.next_token, 51);
    assert_eq!(lc.launched.len(), 1);
    assert_eq!(lc.launched[0].token, PromiseToken { id: 50 });
}

#[test]
fn a_row_launches_once_when_added() {
    let mut row = ContentSet::new(4, record("Trending", "trending-ref"));
    let mut lc = LifeCycleCtx::new(u64::MAX - 1);
    row.lifecycle(&mut lc, &LifeCycle::WidgetAdded);
    assert_eq!(row.children_promise, Slot::Pending(PromiseToken { id: u64::MAX - 1 }));
    assert_eq!(lc.next_token, u64::MAX);
    assert_eq!(
        lc.launched,
        vec![BackgroundTask {
            token: PromiseToken { id: u64::MAX - 1 },
            work: Work::LoadContentSet(
                "https://cd-static.bamgrid.com/dp-117731241344/sets/trending-ref.json".to_string()
            ),
        }]
    );
    row.lifecycle(&mut lc, &LifeCycle::WidgetAdded);
    assert_eq!(row.children_promise, Slot::Pending(PromiseToken { id: u64::MAX - 1 }));
    assert_eq!(lc.launched.len(), 1);
    assert_eq!(row.row, 4);
    assert_eq!(row.children, None);
}

#[test]
fn other_notifications_launch_nothing() {
    let mut row = ContentSet::new(0, record("Trending", "trending-ref"));
    let mut root = RootWidget::new();
    let mut lc = LifeCycleCtx::new(0);
    row.lifecycle(&mut lc, &LifeCycle::Other);
    row.lifecycle(&mut lc, &LifeCycle::BuildFocusChain);
    root.lifecycle(&mut lc, &LifeCycle::Other);
    assert_eq!(row.children_promise, Slot::Idle);
    assert_eq!(root.children_promise, Slot::Idle);
    assert_eq!(lc, LifeCycleCtx::new(0));
}

#[test]
fn building_the_focus_chain_registers_and_submits_the_focus_command() {
    let mut root = root_with_rows(&["ref-a"]);
    let mut lc = LifeCycleCtx::new(0);
    root.lifecycle(&mut lc, &LifeCycle::BuildFocusChain);
    assert!(lc.focus_registered);
    assert_eq!(lc.commands, vec![Command::RequestFocus]);
    assert_eq!(lc.launched, vec![]);
    assert_eq!(lc.next_token, 0);
    assert_eq!(root.children.as_ref().unwrap()[0].children_promise, Slot::Idle);
    let mut ctx = EventCtx::new();
    root.on_event(&mut ctx, &Event::Command(lc.commands[0]));
    assert!(ctx.focus_requested);
}
