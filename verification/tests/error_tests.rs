use chatti::error::Application;

#[test]
fn each_kind_has_its_message() {
    assert_eq!(
        Application::Config("x".to_string()).display_message(),
        "There was an issue with the application configuration"
    );
    assert_eq!(
        Application::Ui("x".to_string()).display_message(),
        "An error occurred in the user interface"
    );
    assert_eq!(
        Application::Network("x".to_string()).display_message(),
        "There was a problem connecting to the server"
    );
    assert_eq!(
        Application::JsonParse("x".to_string()).display_message(),
        "There was an issue processing the server response"
    );
    assert_eq!(
        Application::Unexpected("Something went wrong".to_string()).display_message(),
        "An unexpected error occurred"
    );
}

#[test]
fn server_errors_are_shown_in_the_servers_words() {
    assert_eq!(
        Application::ApiError("model not found".to_string()).display_message(),
        "model not found"
    );
}
