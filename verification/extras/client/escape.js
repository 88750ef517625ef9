/* Closes the user menu on Escape. */
(function () {
if (window.__inEscTop) { return; }
window.__inEscTop = true;
window.__inEsc.register(40, function () {
    var menu = document.querySelector('.user-menu');
    if (menu && (menu.matches(':hover') || menu.contains(document.activeElement))) {
        window.__inOwn(menu, ['user-menu-esc'], []);
        var focused = document.activeElement;
        if (focused && focused.closest('.user-menu')) { focused.blur(); }
        return true;
    }
    return false;
});
document.addEventListener('mouseenter', function (e) {
    var menu = e.target.closest ? e.target.closest('.user-menu') : null;
    if (menu) { menu.classList.remove('user-menu-esc'); }
}, true);
})();
