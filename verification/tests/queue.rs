use tweet_cycle::queue::{
    extension_from_content_type, get_request_result, get_request_status, plan_downloads,
    queue_step, stamped_file, Download, ImageInfo, QueueAction, MAX_RETRIES,
};

#[test]
fn extension_follows_the_content_type() {
    assert_eq!(extension_from_content_type(Some("image/jpeg")), "jpg");
    assert_eq!(extension_from_content_type(Some("image/png")), "png");
    assert_eq!(extension_from_content_type(Some("image/gif")), "bin");
    assert_eq!(extension_from_content_type(Some("IMAGE/PNG")), "bin");
    assert_eq!(extension_from_content_type(None), "bin");
}

#[test]
fn queue_is_read_until_the_job_is_completed() {
    assert_eq!(MAX_RETRIES, 30);
    assert_eq!(queue_step(1, 30, Some("IN_QUEUE")), QueueAction::Wait(2));
    assert_eq!(queue_step(1, 30, None), QueueAction::Wait(2));
    assert_eq!(queue_step(5, 30, Some("completed")), QueueAction::Fetch);
    assert_eq!(queue_step(5, 30, Some("COMPLETED")), QueueAction::Fetch);
    assert_eq!(queue_step(30, 30, Some("Completed")), QueueAction::Fetch);
    assert_eq!(queue_step(30, 30, Some("failed")), QueueAction::GiveUp);
    assert_eq!(queue_step(30, 30, None), QueueAction::GiveUp);
    assert_eq!(queue_step(29, 30, Some("completed ")), QueueAction::Wait(2));
}

#[test]
fn queue_addresses_name_the_job() {
    assert_eq!(
        get_request_status("abc"),
        "https://queue.fal.run/fal-ai/lightning-models/requests/abc/status"
    );
    assert_eq!(get_request_result("abc"), "https://queue.fal.run/fal-ai/lightning-models/requests/abc");
    assert_eq!(stamped_file("final_result", 1740592533, "json"), "final_result_1740592533.json");
    assert_eq!(stamped_file("generated_image", -5, "png"), "generated_image_-5.png");
}

#[test]
fn images_with_an_address_are_downloaded_under_their_place() {
    let images = vec![
        ImageInfo { url: Some("http://a".to_string()), content_type: Some("image/jpeg".to_string()) },
        ImageInfo { url: None, content_type: Some("image/png".to_string()) },
        ImageInfo { url: Some("http://c".to_string()), content_type: None },
    ];
    assert_eq!(
        plan_downloads(&images, 1700000000),
        vec![
            Download { url: "http://a".to_string(), file_name: "final_image_1700000000_0.jpg".to_string() },
            Download { url: "http://c".to_string(), file_name: "final_image_1700000000_2.bin".to_string() },
        ]
    );
    assert_eq!(plan_downloads(&vec![], 0), vec![]);
}
